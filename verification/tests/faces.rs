use ahnlich_ai_proxy::errors::AIProxyError;
use ahnlich_ai_proxy::faces::{
    anchors_at, by_shape, dimension_param_key, face_metadata, face_metadata_for_request, face_responses, generate_anchors,
    group_by_counts,
    has_attribute, wants_genderage, OutputShape,
};
use ahnlich_ai_proxy::keyed::StrMap;
use ahnlich_ai_proxy::store::ModelResponse;

#[test]
fn anchor_grid_matches_the_model_output_lengths() {
    let anchors = generate_anchors();

    // 80x80x2 + 40x40x2 + 20x20x2. These lengths are the model's output rows.
    assert_eq!(anchors.len(), 12800 + 3200 + 800);
    assert_eq!(anchors[0].stride as f32, 8.0);

    // Cell corners, not centres: the second cell of row 0 sits at x = stride.
    assert_eq!((anchors[0].x as f32, anchors[0].y as f32), (0.0, 0.0));
    assert_eq!((anchors[2].x as f32, anchors[2].y as f32), (8.0, 0.0));
}

#[test]
fn anchors_run_row_by_row_and_level_by_level() {
    let anchors = generate_anchors();
    assert_eq!(anchors_at(8), 12800);
    assert_eq!(anchors_at(16), 3200);
    assert_eq!(anchors_at(32), 800);
    // A stride wider than the input leaves no cells.
    assert_eq!(anchors_at(1000), 0);
    // The first anchor of the second row of the finest level.
    assert_eq!((anchors[160].x, anchors[160].y), (0, 8));
    assert_eq!(anchors[161], anchors[160]);
    // The first anchor of the middle level.
    assert_eq!((anchors[12800].x, anchors[12800].y, anchors[12800].stride), (0, 0, 16));
    // The last anchor of all.
    let last = anchors[anchors.len() - 1];
    assert_eq!((last.x, last.y, last.stride), (608, 608, 32));
}

fn shape(dims: &[usize], contiguous: bool) -> OutputShape {
    OutputShape { dims: dims.to_vec(), contiguous }
}

#[test]
fn outputs_are_found_by_shape() {
    let outputs = vec![shape(&[12800, 4], true), shape(&[12800, 1], true), shape(&[800, 1], false)];
    assert_eq!(by_shape(&outputs, 12800, 1, 8), Ok(1));
    assert_eq!(by_shape(&outputs, 12800, 4, 8), Ok(0));
    assert_eq!(
        by_shape(&outputs, 3200, 10, 16),
        Err(AIProxyError::ModelProviderPostprocessingError(
            "SCRFD output [3200, 10] missing for stride 16".to_string()
        ))
    );
    // An output that cannot be read as a slice counts as missing.
    assert_eq!(
        by_shape(&outputs, 800, 1, 32),
        Err(AIProxyError::ModelProviderPostprocessingError(
            "SCRFD output [800, 1] missing for stride 32".to_string()
        ))
    );
}

#[test]
fn faces_go_back_to_their_images() {
    let groups = group_by_counts(&vec![2, 0, 1, 3], vec!['a', 'b', 'c', 'd', 'e', 'f', 'g']);
    assert_eq!(groups, vec![vec!['a', 'b'], vec![], vec!['c'], vec!['d', 'e', 'f']]);
    let none: Vec<Vec<u8>> = group_by_counts(&vec![], vec![1u8]);
    assert!(none.is_empty());
}

#[test]
fn attributes_are_a_comma_separated_list() {
    assert!(has_attribute("genderage", "genderage"));
    assert!(has_attribute("  genderage\t", "genderage"));
    assert!(has_attribute("emotion, genderage", "genderage"));
    assert!(has_attribute("genderage,emotion", "genderage"));
    assert!(!has_attribute("gender age", "genderage"));
    assert!(!has_attribute("genderages", "genderage"));
    assert!(!has_attribute("", "genderage"));
    assert!(has_attribute("a,,b", ""));
    let mut params: StrMap<String> = StrMap::new();
    assert!(!wants_genderage(&params));
    params.insert("attributes".to_string(), "emotion , genderage ".to_string());
    assert!(wants_genderage(&params));
    params.insert("attributes".to_string(), "emotion".to_string());
    assert!(!wants_genderage(&params));
}

#[test]
fn dimension_keys_match_what_the_proxy_records() {
    assert_eq!(dimension_param_key("orig_width", 0), "orig_width_0");
    assert_eq!(dimension_param_key("orig_height", 12), "orig_height_12");
}

#[test]
fn face_metadata_names_the_box_and_optional_attributes() {
    let plain = face_metadata(
        "0.1".to_string(),
        "0.2".to_string(),
        "0.3".to_string(),
        "0.4".to_string(),
        "0.9".to_string(),
        None,
    );
    assert_eq!(plain.value.len(), 5);
    assert!(plain.contains_key("bbox_y2"));
    assert!(!plain.contains_key("age"));
    let full = face_metadata(
        "0".to_string(),
        "0".to_string(),
        "1".to_string(),
        "1".to_string(),
        "0.5".to_string(),
        Some(("0.7".to_string(), "0.3".to_string(), "31".to_string())),
    );
    assert_eq!(full.value.len(), 8);
    assert!(full.contains_key("gender_female_prob") && full.contains_key("age"));
}

#[test]
fn each_image_gets_the_faces_found_in_it() {
    let responses = face_responses(&vec![1, 0, 2], vec![10u32, 20, 30, 40]);
    assert_eq!(responses.len(), 3);
    let groups: Vec<Vec<u32>> = responses
        .into_iter()
        .map(|r| match r {
            ModelResponse::OneToMany(ks) => ks,
            ModelResponse::OneToOne(_) => panic!("a face model answers one-to-many"),
        })
        .collect();
    assert_eq!(groups, vec![vec![10], vec![], vec![20, 30]]);
}

#[test]
fn gender_and_age_are_recorded_only_when_asked_for() {
    let s = |x: &str| x.to_string();
    let estimate = Some((s("0.7"), s("0.3"), s("31")));
    let plain = StrMap::new();
    let v = face_metadata_for_request(&plain, s("1"), s("2"), s("3"), s("4"), s("0.9"), estimate.clone());
    assert!(!v.contains_key("age"));
    assert!(v.contains_key("confidence"));

    let mut asked = StrMap::new();
    asked.insert(s("attributes"), s("genderage"));
    let v = face_metadata_for_request(&asked, s("1"), s("2"), s("3"), s("4"), s("0.9"), estimate);
    assert!(v.contains_key("age"));
    assert!(v.contains_key("gender_female_prob"));
}
