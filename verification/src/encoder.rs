//! Video encoder selection.
//!
//! Each codec/backend has a preference-ordered list of interchangeable
//! GStreamer elements; the first available element of each list is offered,
//! and the offers are ordered by priority (lower is better, hardware
//! encoders have lower priorities than software ones).
use vstd::prelude::*;
use vstd::string::*;

verus! {

/// Codec type.
#[derive(Debug, Clone, Copy, PartialEq, Eq, Structural)]
pub enum Codec {
    H264,
    H265,
    VP9,
    AV1,
}

impl Codec {
    /// Human-readable codec name.
    pub fn name(&self) -> (s: &'static str)
        ensures
            *self == Codec::H264 ==> s@ == "H.264"@,
            *self == Codec::H265 ==> s@ == "H.265"@,
            *self == Codec::VP9 ==> s@ == "VP9"@,
            *self == Codec::AV1 ==> s@ == "AV1"@,
    {
        match self {
            Codec::H264 => "H.264",
            Codec::H265 => "H.265",
            Codec::VP9 => "VP9",
            Codec::AV1 => "AV1",
        }
    }

    /// The parser element the muxer needs after an encoder of this codec, if any.
    pub fn parser_element(&self) -> (s: Option<&'static str>)
        ensures
            *self == Codec::H264 ==> (s matches Some(p) && p@ == "h264parse"@),
            *self == Codec::H265 ==> (s matches Some(p) && p@ == "h265parse"@),
            (*self == Codec::VP9 || *self == Codec::AV1) ==> s is None,
    {
        match self {
            Codec::H264 => Some("h264parse"),
            Codec::H265 => Some("h265parse"),
            _ => None,
        }
    }
}

/// Information about an available encoder.
#[derive(Debug)]
pub struct EncoderInfo {
    /// Human-readable name (e.g., "VA-API H.264")
    pub name: String,
    /// GStreamer element name (e.g., "vaapih264enc")
    pub gst_element: String,
    /// Codec type
    pub codec: Codec,
    /// Whether this is hardware-accelerated
    pub hardware: bool,
    /// Whether this encoder can participate in the real DMA-BUF zero-copy path
    pub supports_dmabuf_zero_copy: bool,
    /// Priority (lower = better, hardware encoders have lower priority)
    pub priority: u8,
}

impl EncoderInfo {
    /// Display name with hardware/software indicator.
    pub fn display_name(&self) -> (s: String)
        ensures
            self.hardware ==> s@ == self.name@ + " (Hardware)"@,
            !self.hardware ==> s@ == self.name@ + " (Software)"@,
    {
        let mut out = self.name.clone();
        if self.hardware {
            out.append(" (Hardware)");
        } else {
            out.append(" (Software)");
        }
        out
    }

    /// Which capture path the encoder supports.
    pub fn zero_copy_display_name(&self) -> (s: &'static str)
        ensures
            self.supports_dmabuf_zero_copy ==> s@ == "DMA-BUF zero-copy capable"@,
            !self.supports_dmabuf_zero_copy ==> s@ == "copied-memory path only"@,
    {
        if self.supports_dmabuf_zero_copy {
            "DMA-BUF zero-copy capable"
        } else {
            "copied-memory path only"
        }
    }
}

/// A candidate encoder: an element name to probe plus the metadata to
/// publish if it is available.
#[derive(Clone, Copy, Debug)]
pub struct EncoderCandidate {
    pub name: &'static str,
    pub gst_element: &'static str,
    pub codec: Codec,
    pub hardware: bool,
    pub supports_dmabuf_zero_copy: bool,
    pub priority: u8,
}

/// `info` publishes the candidate `c`.
pub open spec fn describes(info: EncoderInfo, c: EncoderCandidate) -> bool {
    &&& info.name@ == c.name@
    &&& info.gst_element@ == c.gst_element@
    &&& info.codec == c.codec
    &&& info.hardware == c.hardware
    &&& info.supports_dmabuf_zero_copy == c.supports_dmabuf_zero_copy
    &&& info.priority == c.priority
}

/// The priority shared by every candidate of group `g` of the table.
pub open spec fn group_priority(g: int) -> u8 {
    if g == 0 { 10 } else if g == 1 { 11 } else if g == 2 { 12 } else if g == 3 { 20 } else if g
        == 4 { 21 } else if g == 5 { 100 } else { 101 }
}

/// The codec shared by every candidate of group `g` of the table.
pub open spec fn group_codec(g: int) -> Codec {
    if g == 0 || g == 3 || g == 5 {
        Codec::H264
    } else if g == 1 || g == 4 {
        Codec::H265
    } else {
        Codec::VP9
    }
}

/// The number of candidates in group `g` of the table.
pub open spec fn table_group_len(g: int) -> int {
    if g == 0 || g == 1 { 3 } else if g == 6 { 1 } else { 2 }
}

/// The display name of candidate `i` of group `g` of the table.
pub open spec fn table_name(g: int, i: int) -> Seq<char> {
    if g == 0 {
        if i < 2 { "VA-API H.264"@ } else { "VA-API H.264 (low-power)"@ }
    } else if g == 1 {
        if i < 2 { "VA-API H.265"@ } else { "VA-API H.265 (low-power)"@ }
    } else if g == 2 {
        "VA-API VP9"@
    } else if g == 3 {
        "NVENC H.264"@
    } else if g == 4 {
        "NVENC H.265"@
    } else if g == 5 {
        if i == 0 { "x264 H.264"@ } else { "OpenH264"@ }
    } else {
        "VP9"@
    }
}

/// The GStreamer element of candidate `i` of group `g` of the table.
pub open spec fn table_element(g: int, i: int) -> Seq<char> {
    if g == 0 {
        if i == 0 { "vaapih264enc"@ } else if i == 1 { "vah264enc"@ } else { "vah264lpenc"@ }
    } else if g == 1 {
        if i == 0 { "vaapih265enc"@ } else if i == 1 { "vah265enc"@ } else { "vah265lpenc"@ }
    } else if g == 2 {
        if i == 0 { "vaapivp9enc"@ } else { "vavp9enc"@ }
    } else if g == 3 {
        if i == 0 { "nvh264enc"@ } else { "nvcudah264enc"@ }
    } else if g == 4 {
        if i == 0 { "nvh265enc"@ } else { "nvcudah265enc"@ }
    } else if g == 5 {
        if i == 0 { "x264enc"@ } else { "openh264enc"@ }
    } else {
        "vp9enc"@
    }
}

/// `groups` is the candidate table: its shape, strings and priorities.
pub open spec fn is_candidate_table(groups: Seq<Vec<EncoderCandidate>>) -> bool {
    &&& groups.len() == 7
    &&& forall|g: int| 0 <= g < 7 ==> (#[trigger] groups[g])@.len() == table_group_len(g)
    &&& forall|g: int, i: int|
        0 <= g < 7 && 0 <= i < table_group_len(g) ==> (#[trigger] groups[g]@[i]).name@ == table_name(g, i)
            && groups[g]@[i].gst_element@ == table_element(g, i) && groups[g]@[i].priority
            == group_priority(g)
}

/// Law: every name and element of the candidate table is non-empty, and no
/// element occurs twice in it.
pub proof fn law_table_strings(g: int, i: int, h: int, j: int)
    requires
        0 <= g < 7,
        0 <= i < table_group_len(g),
        0 <= h < 7,
        0 <= j < table_group_len(h),
    ensures
        table_name(g, i).len() > 0,
        table_element(g, i).len() > 0,
        (g != h || i != j) ==> table_element(g, i) != table_element(h, j),
{
    reveal_strlit("VA-API H.264");
    reveal_strlit("VA-API H.264 (low-power)");
    reveal_strlit("VA-API H.265");
    reveal_strlit("VA-API H.265 (low-power)");
    reveal_strlit("VA-API VP9");
    reveal_strlit("NVENC H.264");
    reveal_strlit("NVENC H.265");
    reveal_strlit("x264 H.264");
    reveal_strlit("OpenH264");
    reveal_strlit("VP9");
    reveal_strlit("vaapih264enc");
    reveal_strlit("vah264enc");
    reveal_strlit("vah264lpenc");
    reveal_strlit("vaapih265enc");
    reveal_strlit("vah265enc");
    reveal_strlit("vah265lpenc");
    reveal_strlit("vaapivp9enc");
    reveal_strlit("vavp9enc");
    reveal_strlit("nvh264enc");
    reveal_strlit("nvcudah264enc");
    reveal_strlit("nvh265enc");
    reveal_strlit("nvcudah265enc");
    reveal_strlit("x264enc");
    reveal_strlit("openh264enc");
    reveal_strlit("vp9enc");
    if g != h || i != j {
        let a = table_element(g, i);
        let b = table_element(h, j);
        // elements of equal length differ at one of these positions
        assert(a.len() != b.len() || a[0] != b[0] || a[5] != b[5] || a[8] != b[8] || a[9] != b[9]);
    }
}

fn candidate(
    name: &'static str,
    gst_element: &'static str,
    codec: Codec,
    hardware: bool,
    supports_dmabuf_zero_copy: bool,
    priority: u8,
) -> (c: EncoderCandidate)
    ensures
        c == (EncoderCandidate { name, gst_element, codec, hardware, supports_dmabuf_zero_copy, priority }),
{
    EncoderCandidate { name, gst_element, codec, hardware, supports_dmabuf_zero_copy, priority }
}

/// The candidate table: one preference-ordered group per codec/backend.
/// Legacy `vaapi*` elements come first (they have the DMA-BUF zero-copy
/// path), then the modern `va*` ones; then NVENC; then software encoders.
pub fn candidate_groups() -> (groups: Vec<Vec<EncoderCandidate>>)
    ensures
        groups@.len() == 7,
        groups@[0]@.len() == 3 && groups@[1]@.len() == 3 && groups@[2]@.len() == 2,
        groups@[3]@.len() == 2 && groups@[4]@.len() == 2 && groups@[5]@.len() == 2,
        groups@[6]@.len() == 1,
        forall|g: int, i: int|
            0 <= g < 7 && 0 <= i < groups@[g]@.len() ==> #[trigger] groups@[g]@[i].priority
                == group_priority(g) && groups@[g]@[i].codec == group_codec(g)
                && groups@[g]@[i].hardware == (g < 5),
        forall|g: int, i: int|
            0 <= g < 7 && 0 <= i < groups@[g]@.len() ==> (#[trigger] groups@[g]@[i].supports_dmabuf_zero_copy
                <==> (g < 3 && i == 0)),
        priorities_rise_by_group(groups@),
        is_candidate_table(groups@),
{
    let mut groups: Vec<Vec<EncoderCandidate>> = Vec::new();
    let mut g0: Vec<EncoderCandidate> = Vec::new();
    g0.push(candidate("VA-API H.264", "vaapih264enc", Codec::H264, true, true, 10));
    g0.push(candidate("VA-API H.264", "vah264enc", Codec::H264, true, false, 10));
    g0.push(candidate("VA-API H.264 (low-power)", "vah264lpenc", Codec::H264, true, false, 10));
    groups.push(g0);
    let mut g1: Vec<EncoderCandidate> = Vec::new();
    g1.push(candidate("VA-API H.265", "vaapih265enc", Codec::H265, true, true, 11));
    g1.push(candidate("VA-API H.265", "vah265enc", Codec::H265, true, false, 11));
    g1.push(candidate("VA-API H.265 (low-power)", "vah265lpenc", Codec::H265, true, false, 11));
    groups.push(g1);
    let mut g2: Vec<EncoderCandidate> = Vec::new();
    g2.push(candidate("VA-API VP9", "vaapivp9enc", Codec::VP9, true, true, 12));
    g2.push(candidate("VA-API VP9", "vavp9enc", Codec::VP9, true, false, 12));
    groups.push(g2);
    let mut g3: Vec<EncoderCandidate> = Vec::new();
    g3.push(candidate("NVENC H.264", "nvh264enc", Codec::H264, true, false, 20));
    g3.push(candidate("NVENC H.264", "nvcudah264enc", Codec::H264, true, false, 20));
    groups.push(g3);
    let mut g4: Vec<EncoderCandidate> = Vec::new();
    g4.push(candidate("NVENC H.265", "nvh265enc", Codec::H265, true, false, 21));
    g4.push(candidate("NVENC H.265", "nvcudah265enc", Codec::H265, true, false, 21));
    groups.push(g4);
    let mut g5: Vec<EncoderCandidate> = Vec::new();
    g5.push(candidate("x264 H.264", "x264enc", Codec::H264, false, false, 100));
    g5.push(candidate("OpenH264", "openh264enc", Codec::H264, false, false, 100));
    groups.push(g5);
    let mut g6: Vec<EncoderCandidate> = Vec::new();
    g6.push(candidate("VP9", "vp9enc", Codec::VP9, false, false, 101));
    groups.push(g6);
    proof {
        assert forall|g: int, h: int, i: int, j: int|
            0 <= g < h < groups@.len() && 0 <= i < groups@[g]@.len() && 0 <= j
                < groups@[h]@.len() implies (#[trigger] groups@[g]@[i]).priority
            < (#[trigger] groups@[h]@[j]).priority by {
            assert(group_priority(g) < group_priority(h));
        }
    }
    groups
}

/// The index of the first `true` in `s`.
pub open spec fn first_true(s: Seq<bool>) -> Option<int>
    decreases s.len(),
{
    if s.len() == 0 {
        None
    } else if s[0] {
        Some(0)
    } else {
        match first_true(s.drop_first()) {
            Some(i) => Some(i + 1),
            None => None,
        }
    }
}

/// `first_true` is the least index holding `true`.
pub proof fn lemma_first_true(s: Seq<bool>)
    ensures
        first_true(s) matches Some(i) ==> 0 <= i < s.len() && s[i] && forall|j: int|
            0 <= j < i ==> !s[j],
        first_true(s) is None ==> forall|j: int| 0 <= j < s.len() ==> !s[j],
    decreases s.len(),
{
    if s.len() > 0 && !s[0] {
        lemma_first_true(s.drop_first());
        assert forall|j: int| 0 < j < s.len() implies s[j] == s.drop_first()[j - 1] by {}
    }
}

/// The candidates offered for the first `n` groups: the first available
/// candidate of each group that has one, in group order.
pub open spec fn selection(
    groups: Seq<Vec<EncoderCandidate>>,
    avail: Seq<Vec<bool>>,
    n: int,
) -> Seq<EncoderCandidate>
    decreases n,
{
    if n <= 0 {
        Seq::empty()
    } else {
        let rest = selection(groups, avail, n - 1);
        match first_true(avail[n - 1]@) {
            Some(i) => rest.push(groups[n - 1]@[i]),
            None => rest,
        }
    }
}

/// The candidates of `s` whose priority is `k`, in order.
pub open spec fn of_priority(s: Seq<EncoderCandidate>, k: int) -> Seq<EncoderCandidate>
    decreases s.len(),
{
    if s.len() == 0 {
        Seq::empty()
    } else {
        let rest = of_priority(s.drop_last(), k);
        if s.last().priority == k {
            rest.push(s.last())
        } else {
            rest
        }
    }
}

/// A stable sort of `s` by priority, restricted to priorities below `k`:
/// the candidates of priority 0, then those of priority 1, ..., each group
/// in the order given.
pub open spec fn sorted_below(s: Seq<EncoderCandidate>, k: int) -> Seq<EncoderCandidate>
    decreases k,
{
    if k <= 0 {
        Seq::empty()
    } else {
        sorted_below(s, k - 1) + of_priority(s, k - 1)
    }
}

/// The stable sort of `s` by priority.
pub open spec fn sorted_by_priority(s: Seq<EncoderCandidate>) -> Seq<EncoderCandidate> {
    sorted_below(s, 256)
}

/// Every candidate of `of_priority(s, k)` has priority `k` and is one of `s`.
pub proof fn lemma_of_priority(s: Seq<EncoderCandidate>, k: int)
    ensures
        forall|i: int|
            0 <= i < of_priority(s, k).len() ==> (#[trigger] of_priority(s, k)[i]).priority == k
                && s.contains(of_priority(s, k)[i]),
        of_priority(s, k).len() <= s.len(),
    decreases s.len(),
{
    if s.len() > 0 {
        lemma_of_priority(s.drop_last(), k);
        assert forall|i: int| 0 <= i < of_priority(s, k).len() implies s.contains(
            #[trigger] of_priority(s, k)[i],
        ) by {
            if i < of_priority(s.drop_last(), k).len() {
                let x = of_priority(s.drop_last(), k)[i];
                let j = choose|j: int| 0 <= j < s.drop_last().len() && s.drop_last()[j] == x;
                assert(s[j] == x);
            } else {
                assert(s[s.len() - 1] == s.last());
            }
        }
    }
}

/// The candidates of `sorted_below(s, k)` have priorities below `k`, in
/// non-decreasing order.
pub proof fn lemma_sorted_below(s: Seq<EncoderCandidate>, k: int)
    ensures
        forall|i: int| 0 <= i < sorted_below(s, k).len() ==> (#[trigger] sorted_below(s, k)[i]).priority < k,
        forall|i: int, j: int|
            0 <= i <= j < sorted_below(s, k).len() ==> (#[trigger] sorted_below(s, k)[i]).priority
                <= (#[trigger] sorted_below(s, k)[j]).priority,
    decreases k,
{
    if k > 0 {
        lemma_sorted_below(s, k - 1);
        lemma_of_priority(s, k - 1);
        let a = sorted_below(s, k - 1);
        let b = of_priority(s, k - 1);
        assert(sorted_below(s, k) == a + b);
        assert forall|i: int| 0 <= i < sorted_below(s, k).len() implies (#[trigger] sorted_below(
            s,
            k,
        )[i]).priority < k by {
            if i < a.len() {
                assert(sorted_below(s, k)[i] == a[i]);
            } else {
                assert(sorted_below(s, k)[i] == b[i - a.len()]);
            }
        }
        assert forall|i: int, j: int| 0 <= i <= j < sorted_below(s, k).len() implies (
        #[trigger] sorted_below(s, k)[i]).priority <= (#[trigger] sorted_below(s, k)[j]).priority by {
            if j < a.len() {
                assert(sorted_below(s, k)[i] == a[i]);
                assert(sorted_below(s, k)[j] == a[j]);
            } else if i < a.len() {
                assert(sorted_below(s, k)[i] == a[i]);
                assert(sorted_below(s, k)[j] == b[j - a.len()]);
            } else {
                assert(sorted_below(s, k)[i] == b[i - a.len()]);
                assert(sorted_below(s, k)[j] == b[j - a.len()]);
            }
        }
    }
}

/// Law: the offered encoders come in non-decreasing order of priority.
pub proof fn law_offers_sorted_by_priority(s: Seq<EncoderCandidate>)
    ensures
        forall|i: int, j: int|
            0 <= i <= j < sorted_by_priority(s).len() ==> (#[trigger] sorted_by_priority(s)[i]).priority
                <= (#[trigger] sorted_by_priority(s)[j]).priority,
{
    lemma_sorted_below(s, 256);
}

/// The candidates come in strictly increasing order of priority.
pub open spec fn strictly_by_priority(s: Seq<EncoderCandidate>) -> bool {
    forall|i: int, j: int| 0 <= i < j < s.len() ==> (#[trigger] s[i]).priority < (#[trigger] s[j]).priority
}

proof fn lemma_of_priority_single(s: Seq<EncoderCandidate>, k: int)
    requires
        strictly_by_priority(s),
    ensures
        of_priority(s, k).len() <= 1,
        of_priority(s, k).len() == 1 ==> of_priority(s, k)[0].priority == k,
    decreases s.len(),
{
    if s.len() > 0 {
        let t = s.drop_last();
        assert(strictly_by_priority(t)) by {
            assert forall|i: int, j: int| 0 <= i < j < t.len() implies (#[trigger] t[i]).priority < (
            #[trigger] t[j]).priority by {
                assert(s[i].priority < s[j].priority);
            }
        }
        lemma_of_priority_single(t, k);
        lemma_of_priority(t, k);
        if s.last().priority == k && of_priority(t, k).len() == 1 {
            let x = of_priority(t, k)[0];
            let j = choose|j: int| 0 <= j < t.len() && t[j] == x;
            assert(s[j].priority < s[s.len() - 1].priority);
        }
    }
}

proof fn lemma_sorted_below_strict(s: Seq<EncoderCandidate>, k: int)
    requires
        strictly_by_priority(s),
    ensures
        strictly_by_priority(sorted_below(s, k)),
        forall|i: int| 0 <= i < sorted_below(s, k).len() ==> (#[trigger] sorted_below(s, k)[i]).priority < k,
    decreases k,
{
    lemma_sorted_below(s, k);
    if k > 0 {
        lemma_sorted_below_strict(s, k - 1);
        lemma_of_priority_single(s, k - 1);
        let a = sorted_below(s, k - 1);
        let b = of_priority(s, k - 1);
        assert(sorted_below(s, k) == a + b);
        assert forall|i: int, j: int| 0 <= i < j < sorted_below(s, k).len() implies (
        #[trigger] sorted_below(s, k)[i]).priority < (#[trigger] sorted_below(s, k)[j]).priority by {
            if j < a.len() {
                assert(sorted_below(s, k)[i] == a[i]);
                assert(sorted_below(s, k)[j] == a[j]);
            } else {
                assert(i < a.len());
                assert(sorted_below(s, k)[i] == a[i]);
                assert(sorted_below(s, k)[j] == b[j - a.len()]);
            }
        }
    }
}

/// Priorities rise from one group of the table to the next.
pub open spec fn priorities_rise_by_group(groups: Seq<Vec<EncoderCandidate>>) -> bool {
    forall|g: int, h: int, i: int, j: int|
        0 <= g < h < groups.len() && 0 <= i < groups[g]@.len() && 0 <= j < groups[h]@.len()
            ==> (#[trigger] groups[g]@[i]).priority < (#[trigger] groups[h]@[j]).priority
}

proof fn lemma_selection_strict(groups: Seq<Vec<EncoderCandidate>>, avail: Seq<Vec<bool>>, n: int)
    requires
        availability_matches(groups, avail),
        priorities_rise_by_group(groups),
        0 <= n <= groups.len(),
    ensures
        strictly_by_priority(selection(groups, avail, n)),
        forall|k: int, h: int, j: int|
            0 <= k < selection(groups, avail, n).len() && n <= h < groups.len() && 0 <= j
                < groups[h]@.len() ==> (#[trigger] selection(groups, avail, n)[k]).priority
                < (#[trigger] groups[h]@[j]).priority,
    decreases n,
{
    if n > 0 {
        lemma_selection_strict(groups, avail, n - 1);
        let rest = selection(groups, avail, n - 1);
        lemma_first_true(avail[n - 1]@);
        match first_true(avail[n - 1]@) {
            Some(c) => {
                let sel = rest.push(groups[n - 1]@[c]);
                assert(sel == selection(groups, avail, n));
                assert forall|i: int, j: int| 0 <= i < j < sel.len() implies (#[trigger] sel[i]).priority
                    < (#[trigger] sel[j]).priority by {
                    if j < rest.len() {
                        assert(sel[i] == rest[i] && sel[j] == rest[j]);
                    } else {
                        assert(sel[i] == rest[i]);
                        assert(rest[i].priority < groups[n - 1]@[c].priority);
                    }
                }
                assert forall|k: int, h: int, j: int|
                    0 <= k < sel.len() && n <= h < groups.len() && 0 <= j
                        < groups[h]@.len() implies (#[trigger] sel[k]).priority
                    < (#[trigger] groups[h]@[j]).priority by {
                    if k < rest.len() {
                        assert(sel[k] == rest[k]);
                        assert(rest[k].priority < groups[h]@[j].priority);
                    } else {
                        assert(sel[k] == groups[n - 1]@[c]);
                        assert(groups[n - 1]@[c].priority < groups[h]@[j].priority);
                    }
                }
            },
            None => {
                assert(rest == selection(groups, avail, n));
            },
        }
    }
}

/// Law: when priorities rise from group to group (as in the candidate
/// table), the offered encoders have strictly rising priorities: each
/// codec/backend group is offered at most once, hardware before software.
pub proof fn law_one_encoder_per_group(groups: Seq<Vec<EncoderCandidate>>, avail: Seq<Vec<bool>>)
    requires
        availability_matches(groups, avail),
        priorities_rise_by_group(groups),
    ensures
        strictly_by_priority(sorted_by_priority(selection(groups, avail, groups.len() as int))),
{
    lemma_selection_strict(groups, avail, groups.len() as int);
    lemma_sorted_below_strict(selection(groups, avail, groups.len() as int), 256);
}

/// Every candidate offered for the first `n` groups is a candidate of one of them.
proof fn lemma_selection_members(groups: Seq<Vec<EncoderCandidate>>, avail: Seq<Vec<bool>>, n: int)
    requires
        availability_matches(groups, avail),
        0 <= n <= groups.len(),
    ensures
        forall|k: int|
            0 <= k < selection(groups, avail, n).len() ==> exists|g: int, i: int|
                0 <= g < n && 0 <= i < groups[g]@.len() && #[trigger] selection(groups, avail, n)[k]
                    == groups[g]@[i],
    decreases n,
{
    if n > 0 {
        lemma_selection_members(groups, avail, n - 1);
        lemma_first_true(avail[n - 1]@);
        let rest = selection(groups, avail, n - 1);
        assert forall|k: int| 0 <= k < selection(groups, avail, n).len() implies exists|g: int, i: int|
            0 <= g < n && 0 <= i < groups[g]@.len() && #[trigger] selection(groups, avail, n)[k]
                == groups[g]@[i] by {
            match first_true(avail[n - 1]@) {
                Some(c) => {
                    if k < rest.len() {
                        assert(selection(groups, avail, n)[k] == rest[k]);
                        let (g, i) = choose|g: int, i: int|
                            0 <= g < n - 1 && 0 <= i < groups[g]@.len() && #[trigger] rest[k]
                                == groups[g]@[i];
                        assert(selection(groups, avail, n)[k] == groups[g]@[i]);
                    } else {
                        assert(selection(groups, avail, n)[k] == groups[n - 1]@[c]);
                    }
                },
                None => {
                    let (g, i) = choose|g: int, i: int|
                        0 <= g < n - 1 && 0 <= i < groups[g]@.len() && #[trigger] rest[k]
                            == groups[g]@[i];
                    assert(selection(groups, avail, n)[k] == groups[g]@[i]);
                },
            }
        }
    }
}

/// Every candidate of `sorted_below(s, k)` is one of `s`.
proof fn lemma_sorted_below_members(s: Seq<EncoderCandidate>, k: int)
    ensures
        forall|i: int| 0 <= i < sorted_below(s, k).len() ==> s.contains(#[trigger] sorted_below(s, k)[i]),
    decreases k,
{
    if k > 0 {
        lemma_sorted_below_members(s, k - 1);
        lemma_of_priority(s, k - 1);
        let a = sorted_below(s, k - 1);
        let b = of_priority(s, k - 1);
        assert(sorted_below(s, k) == a + b);
        assert forall|i: int| 0 <= i < sorted_below(s, k).len() implies s.contains(
            #[trigger] sorted_below(s, k)[i],
        ) by {
            if i < a.len() {
                assert(sorted_below(s, k)[i] == a[i]);
            } else {
                assert(sorted_below(s, k)[i] == b[i - a.len()]);
            }
        }
    }
}

/// In a list of strictly rising priorities drawn from the table's group
/// priorities, the entry at position `a` has at least the priority of group
/// `a`; so there are at most as many entries as groups.
proof fn lemma_offer_rank(s: Seq<EncoderCandidate>, a: int)
    requires
        strictly_by_priority(s),
        forall|x: int|
            0 <= x < s.len() ==> exists|g: int| 0 <= g < 7 && (#[trigger] s[x]).priority == group_priority(g),
        0 <= a < s.len(),
    ensures
        a < 7,
        s[a].priority >= group_priority(a),
    decreases a,
{
    let g = choose|g: int| 0 <= g < 7 && s[a].priority == group_priority(g);
    if a > 0 {
        lemma_offer_rank(s, a - 1);
        assert(s[a - 1].priority < s[a].priority);
    }
}

/// Law: from the candidate table, whatever is available, each offered
/// encoder is a candidate of the table with a non-empty name and element,
/// no element is offered twice, and at most seven encoders (one per group)
/// are offered.
pub proof fn law_table_offers_distinct(groups: Seq<Vec<EncoderCandidate>>, avail: Seq<Vec<bool>>)
    requires
        is_candidate_table(groups),
        availability_matches(groups, avail),
    ensures
        forall|a: int|
            0 <= a < sorted_by_priority(selection(groups, avail, 7)).len() ==> exists|g: int, i: int|
                0 <= g < 7 && 0 <= i < table_group_len(g) && #[trigger] sorted_by_priority(
                    selection(groups, avail, 7),
                )[a] == groups[g]@[i],
        forall|a: int|
            0 <= a < sorted_by_priority(selection(groups, avail, 7)).len() ==> (#[trigger] sorted_by_priority(
                selection(groups, avail, 7),
            )[a]).name@.len() > 0 && sorted_by_priority(selection(groups, avail, 7))[a].gst_element@.len()
                > 0,
        forall|a: int, b: int|
            0 <= a < b < sorted_by_priority(selection(groups, avail, 7)).len() ==> (#[trigger] sorted_by_priority(
                selection(groups, avail, 7),
            )[a]).gst_element@ != (#[trigger] sorted_by_priority(selection(groups, avail, 7))[b]).gst_element@,
        sorted_by_priority(selection(groups, avail, 7)).len() <= 7,
{
    let sel = selection(groups, avail, 7);
    let s = sorted_by_priority(sel);
    assert(priorities_rise_by_group(groups)) by {
        assert forall|g: int, h: int, i: int, j: int|
            0 <= g < h < groups.len() && 0 <= i < groups[g]@.len() && 0 <= j < groups[h]@.len() implies (
            #[trigger] groups[g]@[i]).priority < (#[trigger] groups[h]@[j]).priority by {
            assert(groups[g]@.len() == table_group_len(g));
            assert(groups[h]@.len() == table_group_len(h));
        }
    }
    law_one_encoder_per_group(groups, avail);
    lemma_selection_members(groups, avail, 7);
    lemma_sorted_below_members(sel, 256);
    assert forall|a: int| 0 <= a < s.len() implies exists|g: int, i: int|
        0 <= g < 7 && 0 <= i < table_group_len(g) && #[trigger] s[a] == groups[g]@[i] by {
        let x = choose|k: int| 0 <= k < sel.len() && sel[k] == s[a];
        let (g, i) = choose|g: int, i: int| 0 <= g < 7 && 0 <= i < groups[g]@.len() && #[trigger] sel[x] == groups[g]@[i];
        assert(groups[g]@.len() == table_group_len(g));
    }
    assert forall|a: int| 0 <= a < s.len() implies (#[trigger] s[a]).name@.len() > 0 && s[a].gst_element@.len() > 0 by {
        let (g, i) = choose|g: int, i: int| 0 <= g < 7 && 0 <= i < table_group_len(g) && #[trigger] s[a] == groups[g]@[i];
        law_table_strings(g, i, g, i);
    }
    assert forall|a: int, b: int| 0 <= a < b < s.len() implies (#[trigger] s[a]).gst_element@ != (
    #[trigger] s[b]).gst_element@ by {
        let (g, i) = choose|g: int, i: int| 0 <= g < 7 && 0 <= i < table_group_len(g) && #[trigger] s[a] == groups[g]@[i];
        let (h, j) = choose|g: int, i: int| 0 <= g < 7 && 0 <= i < table_group_len(g) && #[trigger] s[b] == groups[g]@[i];
        assert(s[a].priority < s[b].priority);
        law_table_strings(g, i, h, j);
    }
    if s.len() > 0 {
        assert forall|x: int| 0 <= x < s.len() implies exists|g: int|
            0 <= g < 7 && (#[trigger] s[x]).priority == group_priority(g) by {
            let (g, i) = choose|g: int, i: int| 0 <= g < 7 && 0 <= i < table_group_len(g) && #[trigger] s[x] == groups[g]@[i];
        }
        lemma_offer_rank(s, s.len() - 1);
    }
}

/// The shape of an availability table for `groups`: one flag per candidate.
pub open spec fn availability_matches(groups: Seq<Vec<EncoderCandidate>>, avail: Seq<Vec<bool>>) -> bool {
    &&& avail.len() == groups.len()
    &&& forall|g: int| 0 <= g < groups.len() ==> (#[trigger] avail[g])@.len() == groups[g]@.len()
}

/// Choose the encoders to offer: for each group, its first candidate whose
/// element is available (`available[g][i]`), ordered by priority (stable,
/// so equal priorities keep group order).
pub fn choose_encoders(groups: &Vec<Vec<EncoderCandidate>>, available: &Vec<Vec<bool>>) -> (r: Vec<
    EncoderInfo,
>)
    requires
        availability_matches(groups@, available@),
    ensures
        r@.len() == sorted_by_priority(selection(groups@, available@, groups@.len() as int)).len(),
        forall|i: int|
            0 <= i < r@.len() ==> describes(
                #[trigger] r@[i],
                sorted_by_priority(selection(groups@, available@, groups@.len() as int))[i],
            ),
{
    let ng = groups.len();
    let mut chosen: Vec<Option<usize>> = Vec::new();
    let mut g: usize = 0;
    while g < ng
        invariant
            ng == groups@.len(),
            availability_matches(groups@, available@),
            0 <= g <= ng,
            chosen@.len() == g,
            forall|h: int|
                0 <= h < g ==> (match #[trigger] chosen@[h] {
                    Some(c) => first_true(available@[h]@) == Some(c as int),
                    None => first_true(available@[h]@) is None,
                }),
        decreases ng - g,
    {
        let row = &available[g];
        let mut i: usize = 0;
        let mut found: Option<usize> = None;
        proof {
            lemma_first_true(row@);
        }
        while i < row.len()
            invariant
                0 <= i <= row@.len(),
                found is None ==> forall|j: int| 0 <= j < i ==> !row@[j],
                found matches Some(c) ==> c < row@.len() && row@[c as int] && forall|j: int|
                    0 <= j < c ==> !row@[j],
            decreases row@.len() - i,
        {
            if found.is_none() && row[i] {
                found = Some(i);
            }
            i = i + 1;
        }
        proof {
            lemma_first_true(row@);
            if let Some(c) = found {
                let f = first_true(row@)->0;
                // the first available entry is neither before nor after `c`
                assert(!(f < c) && !(c < f));
            }
        }
        chosen.push(found);
        g = g + 1;
    }
    let ghost sel = selection(groups@, available@, ng as int);
    let mut out: Vec<EncoderInfo> = Vec::new();
    let mut k: u16 = 0;
    while k < 256
        invariant
            ng == groups@.len(),
            availability_matches(groups@, available@),
            chosen@.len() == ng,
            forall|h: int|
                0 <= h < ng ==> (match #[trigger] chosen@[h] {
                    Some(c) => first_true(available@[h]@) == Some(c as int),
                    None => first_true(available@[h]@) is None,
                }),
            sel == selection(groups@, available@, ng as int),
            0 <= k <= 256,
            out@.len() == sorted_below(sel, k as int).len(),
            forall|i: int| 0 <= i < out@.len() ==> describes(#[trigger] out@[i], sorted_below(sel, k as int)[i]),
        decreases 256 - k,
    {
        let ghost before = out@.len();
        let mut h: usize = 0;
        while h < ng
            invariant
                ng == groups@.len(),
                availability_matches(groups@, available@),
                chosen@.len() == ng,
                forall|h2: int|
                    0 <= h2 < ng ==> (match #[trigger] chosen@[h2] {
                        Some(c) => first_true(available@[h2]@) == Some(c as int),
                        None => first_true(available@[h2]@) is None,
                    }),
                0 <= h <= ng,
                0 <= k < 256,
                out@.len() == before + of_priority(selection(groups@, available@, h as int), k as int).len(),
                before == sorted_below(sel, k as int).len(),
                forall|i: int| 0 <= i < before ==> describes(#[trigger] out@[i], sorted_below(sel, k as int)[i]),
                forall|i: int|
                    0 <= i < of_priority(selection(groups@, available@, h as int), k as int).len()
                        ==> describes(
                        #[trigger] out@[before + i],
                        of_priority(selection(groups@, available@, h as int), k as int)[i],
                    ),
            decreases ng - h,
        {
            let ghost prev = selection(groups@, available@, h as int);
            match chosen[h] {
                Some(c) => {
                    proof {
                        lemma_first_true(available@[h as int]@);
                    }
                    let cand = groups[h][c];
                    proof {
                        assert(selection(groups@, available@, h + 1) == prev.push(cand));
                        assert(selection(groups@, available@, h + 1).drop_last() =~= prev);
                    }
                    if cand.priority as u16 == k {
                        let info = EncoderInfo {
                            name: String::from_str(cand.name),
                            gst_element: String::from_str(cand.gst_element),
                            codec: cand.codec,
                            hardware: cand.hardware,
                            supports_dmabuf_zero_copy: cand.supports_dmabuf_zero_copy,
                            priority: cand.priority,
                        };
                        out.push(info);
                    }
                },
                None => {
                    proof {
                        assert(selection(groups@, available@, h + 1) == prev);
                    }
                },
            }
            h = h + 1;
        }
        proof {
            let a = sorted_below(sel, k as int);
            let b = of_priority(sel, k as int);
            assert(sorted_below(sel, k + 1) == a + b);
            assert forall|i: int| 0 <= i < out@.len() implies describes(
                #[trigger] out@[i],
                sorted_below(sel, k + 1)[i],
            ) by {
                if i < before {
                    assert((a + b)[i] == a[i]);
                } else {
                    assert((a + b)[i] == b[i - before]);
                    assert(out@[before + (i - before)] == out@[i]);
                }
            }
        }
        k = k + 1;
    }
    out
}

/// The best encoder of a priority-ordered list: its first entry, or `None`
/// when no encoder is available.
pub fn best_encoder(encoders: Vec<EncoderInfo>) -> (r: Option<EncoderInfo>)
    ensures
        encoders@.len() == 0 <==> r is None,
        r matches Some(e) ==> e == encoders@[0],
{
    let mut encoders = encoders;
    if encoders.len() == 0 {
        None
    } else {
        Some(encoders.remove(0))
    }
}

} // verus!
