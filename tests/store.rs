use kit_inventory::color::CreateColorPayload;
use kit_inventory::error::StoreError;
use kit_inventory::kit::{CreateKitPayload, KitGrade, KitQuery, KitStatus, UpdateKitPayload, UpdateStatusPayload};
use kit_inventory::kit_part::CreateKitPartPayload;
use kit_inventory::runner::{CreateRunnerPayload, UpdateIsUsedPayload, UpdateRunnerPayload};
use kit_inventory::steam::{CreateSteamAppGamePayload, UpdateSteamAppGamePayload};
use kit_inventory::store::Inventory;
use kit_inventory::sub_assembly::{CreateSubAssemblyPayload, UpdateSubAssemblyPayload};
use kit_inventory::table::MAX_ID;

fn rx78() -> CreateKitPayload {
    CreateKitPayload { name: String::from("RX-78"), grade: KitGrade::Hg }
}

#[test]
fn scenario_kit_then_sub_assembly() {
    let mut inv = Inventory::new();
    let kit = inv.create_kit(1, &rx78(), 100).unwrap();
    assert_eq!(kit.data.status, KitStatus::Pending);
    assert_eq!(kit.user_id, 1);
    assert_eq!(kit.data.name, "RX-78");
    assert_eq!(kit.data.grade, KitGrade::Hg);
    let torso = CreateSubAssemblyPayload { name: String::from("Torso"), kit_id: kit.id };
    let sa = inv.create_sub_assembly(1, &torso, 101).unwrap();
    assert_eq!(sa.data.kit_id, kit.id);
    assert_eq!(sa.user_id, 1);
    // another principal may not hang a child under someone else's kit
    assert_eq!(inv.create_sub_assembly(2, &torso, 102).err(), Some(StoreError::NotFound));
    assert_eq!(inv.sub_assemblies.rows.len(), 1);
}

#[test]
fn ownership_isolation() {
    let mut inv = Inventory::new();
    let kit = inv.create_kit(1, &rx78(), 100).unwrap();
    assert_eq!(inv.get_kit(2, kit.id).err(), Some(StoreError::NotFound));
    let upd = UpdateKitPayload { name: Some(String::from("Zaku")), grade: None };
    assert_eq!(inv.update_kit(2, kit.id, &upd, 101).err(), Some(StoreError::NotFound));
    assert_eq!(inv.delete_kit(2, kit.id), Err(StoreError::NotFound));
    let still = inv.get_kit(1, kit.id).unwrap();
    assert_eq!(still.data.name, "RX-78");
    assert!(inv.list_kits(2, &KitQuery { status: None }).is_empty());
}

#[test]
fn missing_resource_is_not_found() {
    let mut inv = Inventory::new();
    assert_eq!(inv.get_kit(1, 42).err(), Some(StoreError::NotFound));
    assert_eq!(inv.delete_kit(1, 42), Err(StoreError::NotFound));
}

#[test]
fn partial_update_keeps_other_fields() {
    let mut inv = Inventory::new();
    let kit = inv.create_kit(1, &rx78(), 100).unwrap();
    let upd = UpdateKitPayload { name: None, grade: Some(KitGrade::Mg) };
    let after = inv.update_kit(1, kit.id, &upd, 200).unwrap();
    assert_eq!(after.data.name, "RX-78");
    assert_eq!(after.data.grade, KitGrade::Mg);
    assert_eq!(after.data.status, KitStatus::Pending);
    assert_eq!(after.created_at, 100);
    assert_eq!(after.updated_at, 200);
    let read = inv.get_kit(1, kit.id).unwrap();
    assert_eq!(read.data.name, "RX-78");
    assert_eq!(read.data.grade, KitGrade::Mg);
    assert_eq!(read.updated_at, 200);
    assert_eq!(read.id, kit.id);
}

#[test]
fn create_round_trip() {
    let mut inv = Inventory::new();
    let kit = inv.create_kit(7, &rx78(), 55).unwrap();
    let read = inv.get_kit(7, kit.id).unwrap();
    assert_eq!(read.id, kit.id);
    assert_eq!(read.user_id, kit.user_id);
    assert_eq!(read.created_at, 55);
    assert_eq!(read.updated_at, 55);
    assert_eq!(read.data.name, kit.data.name);
    assert_eq!(read.data.grade, kit.data.grade);
    assert_eq!(read.data.status, kit.data.status);
}

#[test]
fn ids_increase_from_one() {
    let mut inv = Inventory::new();
    let a = inv.create_kit(1, &rx78(), 1).unwrap();
    let b = inv.create_kit(2, &rx78(), 2).unwrap();
    assert_eq!(a.id, 1);
    assert_eq!(b.id, 2);
}

#[test]
fn status_can_jump_to_done() {
    let mut inv = Inventory::new();
    let kit = inv.create_kit(1, &rx78(), 100).unwrap();
    let done = inv.update_kit_status(1, kit.id, &UpdateStatusPayload { status: KitStatus::Done }, 150).unwrap();
    assert_eq!(done.data.status, KitStatus::Done);
    let back = inv.update_kit_status(1, kit.id, &UpdateStatusPayload { status: KitStatus::Pending }, 160).unwrap();
    assert_eq!(back.data.status, KitStatus::Pending);
    assert_eq!(
        inv.update_kit_status(2, kit.id, &UpdateStatusPayload { status: KitStatus::Done }, 170).err(),
        Some(StoreError::NotFound)
    );
}

#[test]
fn list_kits_filters_by_owner_and_status() {
    let mut inv = Inventory::new();
    let a = inv.create_kit(1, &rx78(), 1).unwrap();
    let _b = inv.create_kit(2, &rx78(), 2).unwrap();
    let c = inv.create_kit(1, &rx78(), 3).unwrap();
    inv.update_kit_status(1, c.id, &UpdateStatusPayload { status: KitStatus::InProgress }, 4).unwrap();
    let all = inv.list_kits(1, &KitQuery { status: None });
    assert_eq!(all.iter().map(|k| k.id).collect::<Vec<_>>(), vec![a.id, c.id]);
    let busy = inv.list_kits(1, &KitQuery { status: Some(KitStatus::InProgress) });
    assert_eq!(busy.iter().map(|k| k.id).collect::<Vec<_>>(), vec![c.id]);
    assert!(inv.list_kits(1, &KitQuery { status: Some(KitStatus::Done) }).is_empty());
}

#[test]
fn delete_removes_only_that_row() {
    let mut inv = Inventory::new();
    let a = inv.create_kit(1, &rx78(), 1).unwrap();
    let b = inv.create_kit(1, &rx78(), 2).unwrap();
    assert_eq!(inv.delete_kit(1, a.id), Ok(()));
    assert_eq!(inv.get_kit(1, a.id).err(), Some(StoreError::NotFound));
    assert!(inv.get_kit(1, b.id).is_ok());
    assert_eq!(inv.delete_kit(1, a.id), Err(StoreError::NotFound));
}

#[test]
fn identifier_space_exhausted() {
    let mut inv = Inventory::new();
    inv.kits.next_id = MAX_ID;
    assert_eq!(inv.create_kit(1, &rx78(), 1).err(), Some(StoreError::StorageFault));
    assert!(inv.kits.rows.is_empty());
}

#[test]
fn enum_text_round_trip() {
    for s in [KitStatus::Pending, KitStatus::InProgress, KitStatus::Done] {
        assert_eq!(KitStatus::parse(s.as_str()), Ok(s));
    }
    for g in [KitGrade::Eg, KitGrade::Hg, KitGrade::Rg, KitGrade::Mg, KitGrade::Mgsd, KitGrade::Pg, KitGrade::Other] {
        assert_eq!(KitGrade::parse(g.as_str()), Ok(g));
    }
    assert_eq!(KitStatus::InProgress.as_str(), "in_progress");
    assert_eq!(KitGrade::Mgsd.as_str(), "mgsd");
    assert_eq!(KitStatus::parse("finished"), Err(StoreError::ValidationFailure));
    assert_eq!(KitGrade::parse("HG"), Err(StoreError::ValidationFailure));
}

fn setup_runner(inv: &mut Inventory) -> (i64, i64, i64) {
    let kit = inv.create_kit(1, &rx78(), 1).unwrap();
    let color = inv
        .create_color(
            1,
            &CreateColorPayload {
                name: String::from("White"),
                code: String::from("W1"),
                hex: String::from("#ffffff"),
                is_clear: None,
                is_multi: Some(true),
            },
            2,
        )
        .unwrap();
    let runner = inv
        .create_runner(
            1,
            &CreateRunnerPayload { name: String::from("A"), kit_id: kit.id, color_id: color.id, amount: 2 },
            3,
        )
        .unwrap();
    (kit.id, color.id, runner.id)
}

#[test]
fn color_defaults_and_runner_join() {
    let mut inv = Inventory::new();
    let (kit_id, color_id, runner_id) = setup_runner(&mut inv);
    let color = inv.get_color_by_id(1, color_id).unwrap();
    assert!(!color.data.is_clear);
    assert!(color.data.is_multi);
    let joined = inv.get_all_runners_with_color_for_kit(1, kit_id);
    assert_eq!(joined.len(), 1);
    assert_eq!(joined[0].runner.id, runner_id);
    let color = joined[0].color.as_ref().unwrap();
    assert_eq!(color.id, color_id);
    assert_eq!(color.hex, "#ffffff");
    let with_runners = inv.get_kit_with_runners(1, kit_id).unwrap();
    assert_eq!(with_runners.runners.len(), 1);
    assert!(!with_runners.runners[0].data.is_used);
}

#[test]
fn runner_needs_owned_color() {
    let mut inv = Inventory::new();
    let (kit_id, _color_id, _runner_id) = setup_runner(&mut inv);
    let p = CreateRunnerPayload { name: String::from("B"), kit_id, color_id: 99, amount: 1 };
    assert_eq!(inv.create_runner(1, &p, 4).err(), Some(StoreError::NotFound));
}

#[test]
fn runner_amount_out_of_range() {
    let mut inv = Inventory::new();
    let (_kit_id, _color_id, runner_id) = setup_runner(&mut inv);
    let p = UpdateRunnerPayload { name: None, kit_id: None, color_id: None, amount: Some(1 << 40) };
    assert_eq!(inv.update_runner(1, runner_id, &p, 5).err(), Some(StoreError::ValidationFailure));
    let q = UpdateRunnerPayload { name: None, kit_id: None, color_id: None, amount: Some(9) };
    assert_eq!(inv.update_runner(1, runner_id, &q, 6).unwrap().data.amount, 9);
    let used = inv.update_runner_is_used(1, runner_id, &UpdateIsUsedPayload { is_used: true }, 7).unwrap();
    assert!(used.data.is_used);
    assert_eq!(used.data.amount, 9);
}

#[test]
fn sub_assembly_moves_only_to_owned_kit() {
    let mut inv = Inventory::new();
    let k1 = inv.create_kit(1, &rx78(), 1).unwrap();
    let k2 = inv.create_kit(2, &rx78(), 1).unwrap();
    let sa = inv
        .create_sub_assembly(1, &CreateSubAssemblyPayload { name: String::from("Legs"), kit_id: k1.id }, 2)
        .unwrap();
    let bad = UpdateSubAssemblyPayload { name: None, kit_id: Some(k2.id) };
    assert_eq!(inv.update_sub_assembly(1, sa.id, &bad, 3).err(), Some(StoreError::NotFound));
    let rename = UpdateSubAssemblyPayload { name: Some(String::from("Feet")), kit_id: None };
    let after = inv.update_sub_assembly(1, sa.id, &rename, 4).unwrap();
    assert_eq!(after.data.name, "Feet");
    assert_eq!(after.data.kit_id, k1.id);
    assert_eq!(inv.get_all_sub_assemblies_for_kit(1, k1.id).len(), 1);
}

#[test]
fn kit_part_cut_flag() {
    let mut inv = Inventory::new();
    let kit = inv.create_kit(1, &rx78(), 1).unwrap();
    let sa = inv
        .create_sub_assembly(1, &CreateSubAssemblyPayload { name: String::from("Arm"), kit_id: kit.id }, 2)
        .unwrap();
    let part = inv
        .create_kit_part(
            1,
            &CreateKitPartPayload { code: Some(String::from("A1")), kit_id: kit.id, sub_assembly_id: sa.id },
            3,
        )
        .unwrap();
    assert!(!part.data.is_cut);
    let cut = inv.update_kit_part_is_cut(1, part.id, true, 4).unwrap();
    assert!(cut.data.is_cut);
    assert_eq!(cut.data.code, Some(String::from("A1")));
    let joined = inv.get_kit_part_with_sub_assembly(1, part.id).unwrap();
    assert_eq!(joined.kit_part.id, part.id);
    assert_eq!(joined.sub_assembly.data.name, "Arm");
    assert_eq!(inv.get_all_kit_parts_for_sub_assembly(1, sa.id).len(), 1);
    assert_eq!(inv.delete_kit_part(1, part.id), Ok(()));
}

#[test]
fn steam_game_crud() {
    let mut inv = Inventory::new();
    let g = inv
        .create_steam_game(
            3,
            &CreateSteamAppGamePayload { app_id: 620, name: String::from("Portal 2"), steam_db_url: None },
            10,
        )
        .unwrap();
    assert_eq!(g.data.app_id, 620);
    assert!(!g.data.is_buy);
    let upd = UpdateSteamAppGamePayload { name: None, steam_db_url: None, is_buy: Some(true) };
    let after = inv.update_steam_game(3, g.id, &upd, 11).unwrap();
    assert!(after.data.is_buy);
    assert_eq!(after.data.name, "Portal 2");
    assert_eq!(inv.list_steam_games(3).len(), 1);
    let h = inv
        .create_steam_game(
            3,
            &CreateSteamAppGamePayload { app_id: 400, name: String::from("Portal"), steam_db_url: None },
            12,
        )
        .unwrap();
    let _other = inv
        .create_steam_game(
            4,
            &CreateSteamAppGamePayload { app_id: 70, name: String::from("Half-Life"), steam_db_url: None },
            13,
        )
        .unwrap();
    let listed: Vec<i64> = inv.list_steam_games(3).iter().map(|x| x.id).collect();
    assert_eq!(listed, vec![h.id, g.id]);
    assert_eq!(inv.delete_steam_game(3, h.id), Ok(()));
    assert_eq!(inv.list_steam_games(4).len(), 1);
    assert_eq!(inv.delete_steam_game(3, g.id), Ok(()));
}

#[test]
fn runner_keeps_its_place_when_color_is_gone() {
    let mut inv = Inventory::new();
    let (kit_id, color_id, runner_id) = setup_runner(&mut inv);
    assert_eq!(inv.delete_color(1, color_id), Ok(()));
    let joined = inv.get_all_runners_with_color_for_kit(1, kit_id);
    assert_eq!(joined.len(), 1);
    assert_eq!(joined[0].runner.id, runner_id);
    assert!(joined[0].color.is_none());
}
