use presenter_persistence::stream::{
    check_asset_delete, check_transition_ms, check_upload_size, decide_font_delete,
    delete_clears_activation, ensure_scene_name_unique, kind_rank, next_config_revision,
    next_index, next_position, non_empty_name, order_scenes_for_display, output_summary,
    plan_element_order, plan_nameplate_order, plan_scene_order, resolve_active_scene,
    resolve_overlay_toggle, row_id, scene_header, scene_kind_from_db, show_state,
    sorted_unique_names, validate_nameplate_text, ElementRow, FontDeleteDecision, NameplateRow,
    OrderSlot, OutputRow, SceneKind, SceneRow, plan_output_scene_reorder, plan_set_active_scene,
    scene_elements_for_display,
};
use presenter_persistence::{NewStreamAsset, RepositoryError};

fn scene(id: i32, output_id: i32, name: &str, kind: &str, position: i32) -> SceneRow {
    SceneRow {
        id,
        output_id,
        name: name.to_string(),
        kind: kind.to_string(),
        position,
        is_active: 0,
        transition_ms: None,
    }
}

fn invalid(msg: &str) -> RepositoryError {
    RepositoryError::Invalid(msg.to_string())
}

#[test]
fn names_and_transitions_are_validated() {
    assert_eq!(non_empty_name("  Main Event "), Ok("Main Event".to_string()));
    assert_eq!(non_empty_name("   "), Err(invalid("output name must be non-empty")));
    assert_eq!(check_transition_ms(10000), Ok(()));
    assert_eq!(
        check_transition_ms(20000),
        Err(invalid("transition 20000ms out of range (expected <=10000)"))
    );
    assert_eq!(check_transition_ms(0), Ok(()));
}

#[test]
fn counters_and_ranks() {
    let mut c = 4;
    assert_eq!(next_index(&mut c), 4);
    assert_eq!(c, 5);
    assert_eq!(kind_rank("base"), 0);
    assert_eq!(kind_rank("overlay"), 1);
    assert_eq!(kind_rank("Base"), 2);
    assert_eq!(scene_kind_from_db("overlay"), Some(SceneKind::Overlay));
    assert_eq!(scene_kind_from_db("lyrics"), None);
    assert_eq!(next_position(&vec![]), 0);
    assert_eq!(next_position(&vec![3, 0, 7, 2]), 8);
    assert_eq!(next_config_revision(41), 42);
    assert_eq!(row_id(9999), Some(9999));
    assert_eq!(row_id(i64::from(i32::MAX) + 1), None);
}

#[test]
fn scene_positions_are_per_kind() {
    let scenes = vec![
        scene(1, 1, "Base A", "base", 0),
        scene(2, 1, "Base B", "base", 1),
        scene(3, 1, "Overlay A", "overlay", 0),
    ];
    let plan = plan_scene_order(&scenes, &vec![3, 2, 1]).unwrap();
    assert_eq!(
        plan,
        vec![
            OrderSlot { id: 3, position: 0 },
            OrderSlot { id: 2, position: 0 },
            OrderSlot { id: 1, position: 1 },
        ]
    );
}

#[test]
fn scene_reorder_validates_the_id_set() {
    let scenes = vec![scene(1, 1, "A", "base", 0), scene(2, 1, "B", "base", 1)];
    assert_eq!(
        plan_scene_order(&scenes, &vec![1, 1]),
        Err(invalid("scene order contains duplicate ids"))
    );
    assert_eq!(
        plan_scene_order(&scenes, &vec![1]),
        Err(invalid("scene order id set does not match this output's scenes"))
    );
    assert_eq!(
        plan_scene_order(&scenes, &vec![1, 2, 3]),
        Err(invalid("scene order id set does not match this output's scenes"))
    );
}

#[test]
fn element_and_nameplate_reorders() {
    let elements = vec![
        ElementRow { id: 10, scene_id: 1, kind: "image".to_string(), z_order: 0 },
        ElementRow { id: 11, scene_id: 1, kind: "lyrics".to_string(), z_order: 1 },
    ];
    assert_eq!(
        plan_element_order(&elements, &vec![11, 10]).unwrap(),
        vec![OrderSlot { id: 11, position: 0 }, OrderSlot { id: 10, position: 1 }]
    );
    assert_eq!(
        plan_element_order(&elements, &vec![11]),
        Err(invalid("element order id set does not match this scene's elements"))
    );
    let plates = vec![
        NameplateRow { id: 5, output_id: 1, primary_text: "A".into(), secondary_text: "".into(), position: 0 },
        NameplateRow { id: 6, output_id: 1, primary_text: "B".into(), secondary_text: "".into(), position: 1 },
    ];
    assert_eq!(
        plan_nameplate_order(&plates, &vec![6, 5]).unwrap(),
        vec![OrderSlot { id: 6, position: 0 }, OrderSlot { id: 5, position: 1 }]
    );
    assert_eq!(
        plan_nameplate_order(&plates, &vec![6, 6]),
        Err(invalid("nameplate order contains duplicate ids"))
    );
}

#[test]
fn duplicate_scene_name_case_insensitive_conflicts() {
    let scenes = vec![scene(1, 1, "Base", "base", 0), scene(2, 1, "Alpha", "base", 1)];
    assert_eq!(
        ensure_scene_name_unique(&scenes, "base", None),
        Err(RepositoryError::Conflict("scene name already exists in this output"))
    );
    assert_eq!(ensure_scene_name_unique(&scenes, "base", Some(1)), Ok(()));
    assert_eq!(ensure_scene_name_unique(&scenes, "Gamma", None), Ok(()));
}

#[test]
fn activation_checks() {
    let base = scene(1, 1, "Base", "base", 0);
    let overlay = scene(2, 1, "Overlay", "overlay", 0);
    let foreign = scene(3, 2, "Other", "base", 0);
    assert_eq!(resolve_active_scene(1, None, None), Ok(None));
    assert_eq!(resolve_active_scene(1, Some(1), Some(&base)), Ok(Some(1)));
    assert_eq!(
        resolve_active_scene(1, Some(9999), None),
        Err(RepositoryError::TargetNotFound("scene not found"))
    );
    assert_eq!(
        resolve_active_scene(1, Some(2), Some(&overlay)),
        Err(invalid("scene is not a base scene"))
    );
    assert_eq!(
        resolve_active_scene(1, Some(3), Some(&foreign)),
        Err(invalid("scene does not belong to this output"))
    );
    assert_eq!(resolve_overlay_toggle(1, Some(&overlay), true), Ok(1));
    assert_eq!(resolve_overlay_toggle(1, Some(&overlay), false), Ok(0));
    assert_eq!(
        resolve_overlay_toggle(1, Some(&base), true),
        Err(invalid("scene is not an overlay scene"))
    );
    assert!(delete_clears_activation(Some(1), 1));
    assert!(!delete_clears_activation(Some(1), 2));
    assert!(!delete_clears_activation(None, 2));
}

#[test]
fn output_summary_and_show_state_clamp_negative_counts() {
    let row = OutputRow {
        id: 7,
        slug: "stream".to_string(),
        name: "Stream".to_string(),
        default_transition_ms: -5,
        active_scene_id: Some(3),
        config_revision: 12,
    };
    let s = output_summary(&row);
    assert_eq!(s.id, 7);
    assert_eq!(s.default_transition_ms, 0);
    assert_eq!(s.active_scene_id, Some(3));
    assert_eq!(s.config_revision, 12);
    let overlays = vec![scene(4, 7, "O1", "overlay", 0), scene(9, 7, "O2", "overlay", 1)];
    let show = show_state(&row, &overlays);
    assert_eq!(show.active_overlay_ids, vec![4, 9]);
    assert_eq!(show.config_revision, 12);
    let mut sc = scene(4, 7, "O1", "overlay", 2);
    sc.is_active = 1;
    sc.transition_ms = Some(250);
    let h = scene_header(&sc).unwrap();
    assert!(h.is_active);
    assert_eq!(h.transition_ms, Some(250));
    assert!(scene_header(&scene(5, 7, "X", "weird", 0)).is_none());
}

#[test]
fn display_order_is_base_then_overlay_then_position() {
    let scenes = vec![
        scene(5, 1, "Overlay", "overlay", 0),
        scene(2, 1, "Base B", "base", 1),
        scene(1, 1, "Base A", "base", 1),
        scene(9, 1, "Odd", "unknown", 0),
        scene(3, 1, "Base C", "base", 0),
    ];
    let ordered: Vec<i32> = order_scenes_for_display(scenes).into_iter().map(|s| s.id).collect();
    assert_eq!(ordered, vec![3, 1, 2, 5, 9]);
}

#[test]
fn nameplate_texts_are_trimmed_and_bounded() {
    assert_eq!(validate_nameplate_text("primary_text", "  Jane  ", false), Ok("Jane".to_string()));
    assert_eq!(validate_nameplate_text("secondary_text", "   ", true), Ok(String::new()));
    assert_eq!(
        validate_nameplate_text("primary_text", " ", false),
        Err(invalid("primary_text must be non-empty"))
    );
    let long = "x".repeat(201);
    assert_eq!(
        validate_nameplate_text("secondary_text", &long, true),
        Err(invalid("secondary_text must be at most 200 characters"))
    );
    assert_eq!(validate_nameplate_text("primary_text", &"ž".repeat(200), false), Ok("ž".repeat(200)));
}

#[test]
fn upload_sizes_must_fit_the_column() {
    assert_eq!(check_upload_size("asset", 2048), Ok(2048));
    assert_eq!(check_upload_size("asset", -1), Err(invalid("asset size -1 out of range")));
    assert_eq!(
        check_upload_size("font", 3_000_000_000),
        Err(invalid("font size 3000000000 out of range"))
    );
    let asset = NewStreamAsset {
        sha256: "abc123".to_string(),
        original_filename: "logo.png".to_string(),
        mime: "image/png".to_string(),
        size_bytes: 2048,
        width: Some(400),
        height: Some(250),
    };
    assert_eq!(asset.stored_size(), Ok(2048));
}

#[test]
fn referencing_scenes_are_sorted_and_deduplicated() {
    let names = vec!["Logo Scene".to_string(), "Base".to_string(), "Logo Scene".to_string()];
    assert_eq!(sorted_unique_names(&names), vec!["Base".to_string(), "Logo Scene".to_string()]);
    assert_eq!(
        check_asset_delete(&names),
        Err(RepositoryError::ConflictDetail(
            "asset is still referenced by scene(s): Base, Logo Scene".to_string()
        ))
    );
    assert_eq!(check_asset_delete(&vec![]), Ok(()));
    assert!(matches!(decide_font_delete(1, &names), FontDeleteDecision::Proceed));
    assert!(matches!(decide_font_delete(0, &vec![]), FontDeleteDecision::Proceed));
    match decide_font_delete(0, &names) {
        FontDeleteDecision::Refuse(n) => assert_eq!(n, vec!["Base".to_string(), "Logo Scene".to_string()]),
        FontDeleteDecision::Proceed => panic!("expected a refusal"),
    }
}

fn output(rev: i32) -> OutputRow {
    OutputRow {
        id: 7,
        slug: "stream".to_string(),
        name: "Stream".to_string(),
        default_transition_ms: 400,
        active_scene_id: None,
        config_revision: rev,
    }
}

#[test]
fn reorder_needs_the_output_and_bumps_its_revision() {
    let scenes = vec![scene(1, 7, "A", "base", 0), scene(2, 7, "B", "base", 1)];
    assert_eq!(
        plan_output_scene_reorder(None, &scenes, &vec![2, 1]).err(),
        Some(RepositoryError::NotFound("stream output not found"))
    );
    let out = output(4);
    let plan = plan_output_scene_reorder(Some(&out), &scenes, &vec![2, 1]).unwrap();
    assert_eq!(plan.config_revision, 5);
    assert_eq!(plan.slots, vec![OrderSlot { id: 2, position: 0 }, OrderSlot { id: 1, position: 1 }]);
}

#[test]
fn activation_keeps_the_revision() {
    let out = output(9);
    let base = scene(3, 7, "Main", "base", 0);
    let row = plan_set_active_scene(Some(&out), Some(3), Some(&base)).unwrap();
    assert_eq!(row.active_scene_id, Some(3));
    assert_eq!(row.config_revision, 9);
    let cleared = plan_set_active_scene(Some(&row), None, None).unwrap();
    assert_eq!(cleared.active_scene_id, None);
    assert!(plan_set_active_scene(None, None, None).is_err());
    let overlay = scene(4, 7, "Lower", "overlay", 0);
    assert_eq!(
        plan_set_active_scene(Some(&out), Some(4), Some(&overlay)).err(),
        Some(invalid("scene is not a base scene"))
    );
}

#[test]
fn load_output_def_orders_elements_and_skips_unparseable() {
    let el = |id: i32, z: i32| ElementRow { id, scene_id: 1, kind: "text".to_string(), z_order: z };
    let elements = vec![el(5, 2), el(3, 1), el(4, 1), el(6, 0)];
    let parsed = vec![true, true, true, false];
    let out = scene_elements_for_display(&elements, &parsed);
    let ids: Vec<i32> = out.iter().map(|e| e.id).collect();
    assert_eq!(ids, vec![3, 4, 5]);
}
