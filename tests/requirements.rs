use kit_inventory::color::CreateColorPayload;
use kit_inventory::error::StoreError;
use kit_inventory::kit::{CreateKitPayload, KitGrade};
use kit_inventory::kit_part::CreateKitPartPayload;
use kit_inventory::requirement::{
    plan_compare_sync, BulkCreateRequirementsPayload, BulkDeleteRequirementsPayload, BulkSyncRequirementsPayload,
    BulkUpdateRequirementsPayload, CompareSyncRequirementsPayload, CreateKitPartRequirementPayload,
    NewRequirementItem, UpdateRequirementItem, UpsertRequirementItem,
};
use kit_inventory::runner::CreateRunnerPayload;
use kit_inventory::store::Inventory;
use kit_inventory::sub_assembly::CreateSubAssemblyPayload;

fn tags(v: &[&str]) -> Vec<String> {
    v.iter().map(|s| s.to_string()).collect()
}

/// A kit part and a runner of user 1; returns (kit_part_id, runner_id).
fn setup(inv: &mut Inventory) -> (i64, i64) {
    let kit = inv.create_kit(1, &CreateKitPayload { name: String::from("RX-78"), grade: KitGrade::Hg }, 1).unwrap();
    let sa = inv
        .create_sub_assembly(1, &CreateSubAssemblyPayload { name: String::from("Torso"), kit_id: kit.id }, 2)
        .unwrap();
    let part = inv
        .create_kit_part(1, &CreateKitPartPayload { code: None, kit_id: kit.id, sub_assembly_id: sa.id }, 3)
        .unwrap();
    let color = inv
        .create_color(
            1,
            &CreateColorPayload {
                name: String::from("Red"),
                code: String::from("R"),
                hex: String::from("#ff0000"),
                is_clear: None,
                is_multi: None,
            },
            4,
        )
        .unwrap();
    let runner = inv
        .create_runner(1, &CreateRunnerPayload { name: String::from("A"), kit_id: kit.id, color_id: color.id, amount: 1 }, 5)
        .unwrap();
    (part.id, runner.id)
}

fn upsert(id: Option<i64>, gate: &[&str], qty: i32, runner_id: i64) -> UpsertRequirementItem {
    UpsertRequirementItem { id, gate: tags(gate), qty, is_cut: None, runner_id }
}

#[test]
fn compare_sync_creates_updates_and_deletes() {
    let mut inv = Inventory::new();
    let (kp, runner) = setup(&mut inv);
    let first = CompareSyncRequirementsPayload {
        kit_part_id: kp,
        items: vec![upsert(None, &["A1", "A2"], 2, runner), upsert(None, &["B1"], 1, runner)],
    };
    let out = inv.compare_sync_requirements(1, &first, 10).unwrap();
    assert_eq!(out.len(), 2);
    assert_eq!(out[0].data.gate, tags(&["A1", "A2"]));
    assert_eq!(out[0].data.qty, 2);
    assert!(!out[0].data.is_cut);
    // keep the first, drop the second, add a third
    let second = CompareSyncRequirementsPayload {
        kit_part_id: kp,
        items: vec![upsert(Some(out[0].id), &["A2", "A1"], 5, runner), upsert(None, &["C1"], 3, runner)],
    };
    let out2 = inv.compare_sync_requirements(1, &second, 20).unwrap();
    assert_eq!(out2.len(), 2);
    assert_eq!(out2[0].id, out[0].id);
    assert_eq!(out2[0].data.gate, tags(&["A2", "A1"]));
    assert_eq!(out2[0].data.qty, 5);
    assert_eq!(out2[0].updated_at, 20);
    assert_eq!(out2[1].data.gate, tags(&["C1"]));
    assert!(out2.iter().all(|r| r.id != out[1].id));
    assert_eq!(inv.get_all_requirements_for_kit_part(1, kp).len(), 2);
}

#[test]
fn compare_sync_completeness() {
    let mut inv = Inventory::new();
    let (kp, runner) = setup(&mut inv);
    let items = vec![upsert(None, &["X"], 1, runner), upsert(None, &["Y"], 2, runner), upsert(None, &["Z"], 3, runner)];
    let out = inv.compare_sync_requirements(1, &CompareSyncRequirementsPayload { kit_part_id: kp, items }, 10).unwrap();
    let listed = inv.get_all_requirements_for_kit_part(1, kp);
    assert_eq!(listed.len(), 3);
    assert_eq!(out.len(), 3);
    for (row, (g, q)) in listed.iter().zip([("X", 1), ("Y", 2), ("Z", 3)]) {
        assert_eq!(row.data.gate, tags(&[g]));
        assert_eq!(row.data.qty, q);
        assert_eq!(row.data.kit_part_id, kp);
        assert_eq!(row.data.runner_id, runner);
    }
}

#[test]
fn compare_sync_idempotent() {
    let mut inv = Inventory::new();
    let (kp, runner) = setup(&mut inv);
    let items = vec![upsert(None, &["A"], 1, runner), upsert(None, &["B", "C"], 4, runner)];
    let out = inv.compare_sync_requirements(1, &CompareSyncRequirementsPayload { kit_part_id: kp, items }, 10).unwrap();
    let again: Vec<UpsertRequirementItem> = out
        .iter()
        .map(|r| UpsertRequirementItem {
            id: Some(r.id),
            gate: r.data.gate.clone(),
            qty: r.data.qty as i32,
            is_cut: Some(r.data.is_cut),
            runner_id: r.data.runner_id,
        })
        .collect();
    let existing: Vec<i64> = out.iter().map(|r| r.id).collect();
    let plan = plan_compare_sync(&existing, &again);
    assert!(plan.delete_ids.is_empty());
    assert!(plan.create.is_empty());
    assert_eq!(plan.update.len(), 2);
    let next_before = inv.requirements.next_id;
    let out2 = inv.compare_sync_requirements(1, &CompareSyncRequirementsPayload { kit_part_id: kp, items: again }, 20).unwrap();
    assert_eq!(inv.requirements.next_id, next_before);
    assert_eq!(out2.len(), out.len());
    for (a, b) in out.iter().zip(out2.iter()) {
        assert_eq!(a.id, b.id);
        assert_eq!(a.data.gate, b.data.gate);
        assert_eq!(a.data.qty, b.data.qty);
        assert_eq!(a.data.is_cut, b.data.is_cut);
        assert_eq!(a.data.runner_id, b.data.runner_id);
    }
}

#[test]
fn compare_sync_rejects_foreign_runner_and_changes_nothing() {
    let mut inv = Inventory::new();
    let (kp, runner) = setup(&mut inv);
    inv.compare_sync_requirements(1, &CompareSyncRequirementsPayload { kit_part_id: kp, items: vec![upsert(None, &["A"], 1, runner)] }, 10)
        .unwrap();
    let bad = CompareSyncRequirementsPayload {
        kit_part_id: kp,
        items: vec![upsert(None, &["B"], 1, runner), upsert(None, &["C"], 1, 999)],
    };
    assert_eq!(inv.compare_sync_requirements(1, &bad, 11).err(), Some(StoreError::NotFound));
    let listed = inv.get_all_requirements_for_kit_part(1, kp);
    assert_eq!(listed.len(), 1);
    assert_eq!(listed[0].data.gate, tags(&["A"]));
}

#[test]
fn compare_sync_duplicate_ids_rejected() {
    let mut inv = Inventory::new();
    let (kp, runner) = setup(&mut inv);
    let out = inv
        .compare_sync_requirements(1, &CompareSyncRequirementsPayload { kit_part_id: kp, items: vec![upsert(None, &["A"], 1, runner)] }, 10)
        .unwrap();
    let id = out[0].id;
    let dup = CompareSyncRequirementsPayload {
        kit_part_id: kp,
        items: vec![upsert(Some(id), &["A"], 1, runner), upsert(Some(id), &["B"], 2, runner)],
    };
    assert_eq!(inv.compare_sync_requirements(1, &dup, 11).err(), Some(StoreError::ValidationFailure));
}

#[test]
fn compare_sync_other_owner_not_found() {
    let mut inv = Inventory::new();
    let (kp, runner) = setup(&mut inv);
    let p = CompareSyncRequirementsPayload { kit_part_id: kp, items: vec![upsert(None, &["A"], 1, runner)] };
    assert_eq!(inv.compare_sync_requirements(2, &p, 10).err(), Some(StoreError::NotFound));
    assert!(inv.requirements.rows.is_empty());
}

#[test]
fn bulk_create_is_all_or_nothing() {
    let mut inv = Inventory::new();
    let (kp, runner) = setup(&mut inv);
    let bad = BulkCreateRequirementsPayload {
        kit_part_id: kp,
        items: vec![
            NewRequirementItem { gate: tags(&["A"]), qty: 1, is_cut: None, runner_id: runner },
            NewRequirementItem { gate: tags(&["B"]), qty: 1, is_cut: None, runner_id: 12345 },
        ],
    };
    assert_eq!(inv.bulk_create_requirements(1, &bad, 10).err(), Some(StoreError::NotFound));
    assert!(inv.requirements.rows.is_empty());
    let good = BulkCreateRequirementsPayload {
        kit_part_id: kp,
        items: vec![
            NewRequirementItem { gate: tags(&["A"]), qty: 1, is_cut: Some(true), runner_id: runner },
            NewRequirementItem { gate: tags(&[]), qty: 7, is_cut: None, runner_id: runner },
        ],
    };
    let made = inv.bulk_create_requirements(1, &good, 11).unwrap();
    assert_eq!(made.len(), 2);
    assert!(made[0].data.is_cut);
    assert!(!made[1].data.is_cut);
    assert_eq!(made[1].data.qty, 7);
    assert_eq!(made[0].id + 1, made[1].id);
}

#[test]
fn bulk_update_and_delete() {
    let mut inv = Inventory::new();
    let (kp, runner) = setup(&mut inv);
    let made = inv
        .bulk_create_requirements(
            1,
            &BulkCreateRequirementsPayload {
                kit_part_id: kp,
                items: vec![
                    NewRequirementItem { gate: tags(&["A"]), qty: 1, is_cut: None, runner_id: runner },
                    NewRequirementItem { gate: tags(&["B"]), qty: 2, is_cut: None, runner_id: runner },
                ],
            },
            10,
        )
        .unwrap();
    let upd = BulkUpdateRequirementsPayload {
        items: vec![
            UpdateRequirementItem { id: made[0].id, gate: None, qty: Some(9), is_cut: None, runner_id: None },
            UpdateRequirementItem { id: made[0].id, gate: Some(tags(&["Q"])), qty: None, is_cut: Some(true), runner_id: None },
        ],
    };
    let rows = inv.bulk_update_requirements(1, &upd, 20).unwrap();
    assert_eq!(rows.len(), 2);
    assert_eq!(rows[1].data.qty, 9);
    assert_eq!(rows[1].data.gate, tags(&["Q"]));
    assert!(rows[1].data.is_cut);
    let foreign = BulkUpdateRequirementsPayload {
        items: vec![UpdateRequirementItem { id: made[1].id, gate: None, qty: Some(1), is_cut: None, runner_id: None }],
    };
    assert_eq!(inv.bulk_update_requirements(2, &foreign, 21).err(), Some(StoreError::NotFound));
    assert_eq!(inv.bulk_delete_requirements(2, &BulkDeleteRequirementsPayload { ids: vec![made[1].id] }), Err(StoreError::NotFound));
    assert_eq!(inv.bulk_delete_requirements(1, &BulkDeleteRequirementsPayload { ids: vec![made[1].id] }), Ok(1));
    assert_eq!(inv.get_all_requirements_for_kit_part(1, kp).len(), 1);
}

#[test]
fn bulk_sync_three_lists() {
    let mut inv = Inventory::new();
    let (kp, runner) = setup(&mut inv);
    let made = inv
        .bulk_create_requirements(
            1,
            &BulkCreateRequirementsPayload {
                kit_part_id: kp,
                items: vec![
                    NewRequirementItem { gate: tags(&["A"]), qty: 1, is_cut: None, runner_id: runner },
                    NewRequirementItem { gate: tags(&["B"]), qty: 2, is_cut: None, runner_id: runner },
                ],
            },
            10,
        )
        .unwrap();
    let p = BulkSyncRequirementsPayload {
        kit_part_id: kp,
        create: vec![NewRequirementItem { gate: tags(&["C"]), qty: 3, is_cut: None, runner_id: runner }],
        update: vec![UpdateRequirementItem { id: made[1].id, gate: None, qty: Some(8), is_cut: None, runner_id: None }],
        delete_ids: vec![made[0].id],
    };
    let out = inv.bulk_sync_requirements(1, &p, 30).unwrap();
    assert_eq!(out.len(), 2);
    assert_eq!(out[0].id, made[1].id);
    assert_eq!(out[0].data.qty, 8);
    assert_eq!(out[1].data.gate, tags(&["C"]));
    // updating a row that the same sync deletes fails as a whole
    let clash = BulkSyncRequirementsPayload {
        kit_part_id: kp,
        create: vec![],
        update: vec![UpdateRequirementItem { id: made[1].id, gate: None, qty: Some(1), is_cut: None, runner_id: None }],
        delete_ids: vec![made[1].id],
    };
    assert_eq!(inv.bulk_sync_requirements(1, &clash, 31).err(), Some(StoreError::NotFound));
    assert_eq!(inv.get_all_requirements_for_kit_part(1, kp).len(), 2);
}

#[test]
fn single_requirement_and_joins() {
    let mut inv = Inventory::new();
    let (kp, runner) = setup(&mut inv);
    let r = inv
        .create_kit_part_requirement(
            1,
            &CreateKitPartRequirementPayload { gate: tags(&["G1"]), qty: 4, runner_id: runner, kit_part_id: kp },
            10,
        )
        .unwrap();
    assert!(!r.data.is_cut);
    assert_eq!(r.data.qty, 4);
    let with = inv.get_kit_part_by_id_with_requirements(1, kp).unwrap();
    assert_eq!(with.requirements.len(), 1);
    let joined = inv.get_all_requirements_with_join_runner_for_kit_part(1, kp);
    assert_eq!(joined.len(), 1);
    assert_eq!(joined[0].runner.as_ref().unwrap().id, runner);
    assert_eq!(joined[0].requirement.id, r.id);
    assert_eq!(inv.get_kit_part_by_id_with_requirements(2, kp).err().map(|e| e), Some(StoreError::NotFound));
}

#[test]
fn plan_splits_items() {
    let items = vec![
        UpsertRequirementItem { id: Some(5), gate: tags(&["A"]), qty: 1, is_cut: None, runner_id: 1 },
        UpsertRequirementItem { id: None, gate: tags(&["B"]), qty: 2, is_cut: Some(true), runner_id: 1 },
    ];
    let plan = plan_compare_sync(&vec![4, 5, 6], &items);
    assert_eq!(plan.delete_ids, vec![4, 6]);
    assert_eq!(plan.update.len(), 1);
    assert_eq!(plan.update[0].id, 5);
    assert_eq!(plan.update[0].qty, Some(1));
    assert_eq!(plan.create.len(), 1);
    assert_eq!(plan.create[0].gate, tags(&["B"]));
    assert_eq!(plan.create[0].is_cut, Some(true));
}

#[test]
fn kit_parts_with_requirements_for_kit() {
    let mut inv = Inventory::new();
    let (kp, runner) = setup(&mut inv);
    inv.create_kit_part_requirement(
        1,
        &CreateKitPartRequirementPayload { gate: tags(&["G"]), qty: 1, runner_id: runner, kit_part_id: kp },
        10,
    )
    .unwrap();
    let kit_id = inv.get_kit_part_by_id(1, kp).unwrap().data.kit_id;
    let all = inv.get_all_kit_parts_for_kit_with_requirements(1, kit_id);
    assert_eq!(all.len(), 1);
    assert_eq!(all[0].kit_part.id, kp);
    assert_eq!(all[0].sub_assembly.as_ref().unwrap().data.name, "Torso");
    assert_eq!(all[0].requirements.len(), 1);
    assert!(inv.get_all_kit_parts_for_kit_with_requirements(2, kit_id).is_empty());
}

#[test]
fn compare_sync_rejects_id_of_other_kit_part() {
    let mut inv = Inventory::new();
    let (kp, runner) = setup(&mut inv);
    let kit_id = inv.get_kit_part_by_id(1, kp).unwrap().data.kit_id;
    let sa = inv.get_kit_part_by_id(1, kp).unwrap().data.sub_assembly_id;
    let other = inv
        .create_kit_part(1, &CreateKitPartPayload { code: None, kit_id, sub_assembly_id: sa }, 20)
        .unwrap();
    let foreign = inv
        .compare_sync_requirements(1, &CompareSyncRequirementsPayload { kit_part_id: other.id, items: vec![upsert(None, &["O"], 1, runner)] }, 21)
        .unwrap();
    let p = CompareSyncRequirementsPayload { kit_part_id: kp, items: vec![upsert(Some(foreign[0].id), &["O"], 2, runner)] };
    assert_eq!(inv.compare_sync_requirements(1, &p, 22).err(), Some(StoreError::NotFound));
    assert_eq!(inv.get_all_requirements_for_kit_part(1, other.id)[0].data.qty, 1);
}

#[test]
fn kit_part_listed_after_its_sub_assembly_is_gone() {
    let mut inv = Inventory::new();
    let (kp, runner) = setup(&mut inv);
    let part = inv.get_kit_part_by_id(1, kp).unwrap();
    assert_eq!(inv.delete_sub_assembly(1, part.data.sub_assembly_id), Ok(()));
    let all = inv.get_all_kit_parts_for_kit_with_requirements(1, part.data.kit_id);
    assert_eq!(all.len(), 1);
    assert_eq!(all[0].kit_part.id, kp);
    assert!(all[0].sub_assembly.is_none());
    inv.create_kit_part_requirement(
        1,
        &CreateKitPartRequirementPayload { gate: tags(&["G"]), qty: 1, runner_id: runner, kit_part_id: kp },
        11,
    )
    .unwrap();
    assert_eq!(inv.delete_runner(1, runner), Ok(()));
    let joined = inv.get_all_requirements_with_join_runner_for_kit_part(1, kp);
    assert_eq!(joined.len(), 1);
    assert!(joined[0].runner.is_none());
}
