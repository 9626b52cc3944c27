use snappea::encoder::{best_encoder, candidate_groups, choose_encoders, Codec, EncoderInfo};

fn availability(groups: &Vec<Vec<snappea::encoder::EncoderCandidate>>, available: bool) -> Vec<Vec<bool>> {
    groups.iter().map(|g| vec![available; g.len()]).collect()
}

#[test]
fn test_codec_name() {
    assert_eq!(Codec::H264.name(), "H.264");
    assert_eq!(Codec::H265.name(), "H.265");
    assert_eq!(Codec::VP9.name(), "VP9");
    assert_eq!(Codec::AV1.name(), "AV1");
}

#[test]
fn test_encoder_info_display_name() {
    let hw_encoder = EncoderInfo {
        name: "VA-API H.264".to_string(),
        gst_element: "vaapih264enc".to_string(),
        codec: Codec::H264,
        hardware: true,
        supports_dmabuf_zero_copy: true,
        priority: 10,
    };
    assert_eq!(hw_encoder.display_name(), "VA-API H.264 (Hardware)");

    let sw_encoder = EncoderInfo {
        name: "x264 H.264".to_string(),
        gst_element: "x264enc".to_string(),
        codec: Codec::H264,
        hardware: false,
        supports_dmabuf_zero_copy: false,
        priority: 100,
    };
    assert_eq!(sw_encoder.display_name(), "x264 H.264 (Software)");
}

#[test]
fn test_detect_encoders_returns_sorted_list() {
    // Every element of the table available: the most the detection can offer.
    let groups = candidate_groups();
    let encoders = choose_encoders(&groups, &availability(&groups, true));
    // Verify encoders are sorted by priority
    for i in 1..encoders.len() {
        assert!(encoders[i - 1].priority <= encoders[i].priority);
    }
}

#[test]
fn test_best_encoder() {
    let groups = candidate_groups();
    let result = best_encoder(choose_encoders(&groups, &availability(&groups, true)));

    if let Some(encoder) = result {
        // If we have an encoder, verify it's valid
        assert!(!encoder.name.is_empty());
        assert!(!encoder.gst_element.is_empty());
    }
    // If no encoders available, that's also a valid outcome for this test
}

#[test]
fn test_detect_encoders_have_unique_elements() {
    // Each codec/backend must resolve to at most one element, even on systems
    // that have both the legacy (vaapi*) and modern (va*) plugins installed.
    let groups = candidate_groups();
    let encoders = choose_encoders(&groups, &availability(&groups, true));
    let mut seen = std::collections::HashSet::new();
    for e in &encoders {
        assert!(
            seen.insert(e.gst_element.clone()),
            "duplicate encoder element: {}",
            e.gst_element
        );
    }
}

#[test]
fn test_hardware_priority_lower_than_software() {
    // Verify priority system: hardware < software
    let hw_priority = 10u8; // VA-API
    let sw_priority = 100u8; // x264
    assert!(hw_priority < sw_priority);
}

#[test]
fn no_available_encoder_means_no_best_encoder() {
    let groups = candidate_groups();
    let encoders = choose_encoders(&groups, &availability(&groups, false));
    assert!(encoders.is_empty());
    assert!(best_encoder(encoders).is_none());
}

#[test]
fn legacy_vaapi_is_preferred_and_hardware_comes_first() {
    let groups = candidate_groups();
    let encoders = choose_encoders(&groups, &availability(&groups, true));
    assert_eq!(encoders.len(), groups.len());
    assert_eq!(encoders[0].gst_element, "vaapih264enc");
    assert!(encoders[0].hardware);
    assert!(encoders[0].supports_dmabuf_zero_copy);
    assert_eq!(encoders.last().unwrap().gst_element, "vp9enc");
    assert!(!encoders.last().unwrap().hardware);
    let best = best_encoder(encoders).unwrap();
    assert_eq!(best.priority, 10);
}

#[test]
fn only_the_software_h264_encoder_available() {
    let groups = candidate_groups();
    let mut avail = availability(&groups, false);
    // The first group whose elements include x264enc.
    let g = groups.iter().position(|g| g.iter().any(|c| c.gst_element == "x264enc")).unwrap();
    let c = groups[g].iter().position(|c| c.gst_element == "x264enc").unwrap();
    avail[g][c] = true;
    let encoders = choose_encoders(&groups, &avail);
    assert_eq!(encoders.len(), 1);
    assert_eq!(encoders[0].display_name(), "x264 H.264 (Software)");
    assert_eq!(encoders[0].codec, Codec::H264);
    assert_eq!(encoders[0].priority, 100);
}

#[test]
fn zero_copy_display_names() {
    let e = EncoderInfo {
        name: "x".to_string(),
        gst_element: "y".to_string(),
        codec: Codec::H264,
        hardware: true,
        supports_dmabuf_zero_copy: true,
        priority: 10,
    };
    assert_eq!(e.zero_copy_display_name(), "DMA-BUF zero-copy capable");
    let f = EncoderInfo { supports_dmabuf_zero_copy: false, ..e };
    assert_eq!(f.zero_copy_display_name(), "copied-memory path only");
}

#[test]
fn candidate_table_names_and_elements() {
    let groups = candidate_groups();
    let table: Vec<Vec<(&str, &str)>> = groups
        .iter()
        .map(|g| g.iter().map(|c| (c.name, c.gst_element)).collect())
        .collect();
    let expected: Vec<Vec<(&str, &str)>> = vec![
        vec![
            ("VA-API H.264", "vaapih264enc"),
            ("VA-API H.264", "vah264enc"),
            ("VA-API H.264 (low-power)", "vah264lpenc"),
        ],
        vec![
            ("VA-API H.265", "vaapih265enc"),
            ("VA-API H.265", "vah265enc"),
            ("VA-API H.265 (low-power)", "vah265lpenc"),
        ],
        vec![("VA-API VP9", "vaapivp9enc"), ("VA-API VP9", "vavp9enc")],
        vec![("NVENC H.264", "nvh264enc"), ("NVENC H.264", "nvcudah264enc")],
        vec![("NVENC H.265", "nvh265enc"), ("NVENC H.265", "nvcudah265enc")],
        vec![("x264 H.264", "x264enc"), ("OpenH264", "openh264enc")],
        vec![("VP9", "vp9enc")],
    ];
    assert_eq!(table, expected);
    let mut elements: Vec<&str> = groups.iter().flat_map(|g| g.iter().map(|c| c.gst_element)).collect();
    let total = elements.len();
    elements.sort();
    elements.dedup();
    assert_eq!(elements.len(), total);
}

#[test]
fn the_second_choice_of_a_group_is_offered_when_the_first_is_missing() {
    let groups = candidate_groups();
    let mut avail = availability(&groups, false);
    avail[0][1] = true; // vah264enc
    avail[3][1] = true; // nvcudah264enc
    let encoders = choose_encoders(&groups, &avail);
    let elements: Vec<&str> = encoders.iter().map(|e| e.gst_element.as_str()).collect();
    assert_eq!(elements, vec!["vah264enc", "nvcudah264enc"]);
    assert_eq!(encoders[0].name, "VA-API H.264");
    assert!(!encoders[0].supports_dmabuf_zero_copy);
    let best = best_encoder(encoders).unwrap();
    assert_eq!(best.gst_element, "vah264enc");
    assert!(!best.name.is_empty());
}
