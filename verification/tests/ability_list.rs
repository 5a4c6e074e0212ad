use std::rc::Rc;

use sulis::ability_list::{AbilityList, AbilityListBuilder, AbilityListError, Connect, EntryBuilder};
use sulis::resource_map::ResourceMap;

fn abilities() -> ResourceMap<Rc<String>> {
    let mut m = ResourceMap::new();
    m.insert_new("fireball".to_string(), Rc::new("Fireball".to_string()));
    m.insert_new("heal".to_string(), Rc::new("Heal".to_string()));
    m
}

fn images() -> ResourceMap<Rc<u32>> {
    let mut m = ResourceMap::new();
    m.insert_new("tree".to_string(), Rc::new(7));
    m
}

fn entry(id: &str, position: (f32, f32), connect: Option<Vec<Connect>>) -> EntryBuilder<(f32, f32)> {
    EntryBuilder { id: id.to_string(), position, connect }
}

#[test]
fn ability_list_resolves_entries_in_order() {
    let abilities = abilities();
    let images = images();
    let builder = AbilityListBuilder {
        id: "mage".to_string(),
        background: "tree".to_string(),
        abilities: vec![
            entry("heal", (1.0, 2.0), None),
            entry("fireball", (3.5, 0.5), Some(vec![Connect::Down, Connect::Straight2x])),
        ],
    };
    let list = AbilityList::new(builder, &abilities, &images).unwrap();
    assert_eq!(list.id, "mage");
    assert!(Rc::ptr_eq(&list.background, images.get(&"tree".to_string()).unwrap()));
    let entries: Vec<_> = list.iter().collect();
    assert_eq!(entries.len(), 2);
    assert!(Rc::ptr_eq(&entries[0].ability, abilities.get(&"heal".to_string()).unwrap()));
    assert_eq!(entries[0].position, (1.0, 2.0));
    assert!(entries[0].connect.is_empty());
    assert_eq!(*entries[1].ability, "Fireball");
    assert_eq!(entries[1].position, (3.5, 0.5));
    assert_eq!(entries[1].connect, vec![Connect::Down, Connect::Straight2x]);
}

#[test]
fn ability_list_missing_ability() {
    let builder = AbilityListBuilder {
        id: "mage".to_string(),
        background: "nowhere".to_string(),
        abilities: vec![entry("heal", (0.0, 0.0), None), entry("summon", (0.0, 0.0), None), entry("teleport", (0.0, 0.0), None)],
    };
    let err = AbilityList::new(builder, &abilities(), &images()).err().unwrap();
    assert_eq!(
        err,
        AbilityListError::MissingAbility { list: "mage".to_string(), ability: "summon".to_string() }
    );
}

#[test]
fn ability_list_missing_background() {
    let builder: AbilityListBuilder<(f32, f32)> = AbilityListBuilder {
        id: "mage".to_string(),
        background: "nowhere".to_string(),
        abilities: vec![entry("heal", (0.0, 0.0), None)],
    };
    assert_eq!(builder.owned_id(), "mage");
    let err = AbilityList::new(builder, &abilities(), &images()).err().unwrap();
    assert_eq!(
        err,
        AbilityListError::MissingBackground { list: "mage".to_string(), background: "nowhere".to_string() }
    );
}

#[test]
fn ability_list_may_be_empty() {
    let builder: AbilityListBuilder<(f32, f32)> = AbilityListBuilder {
        id: "empty".to_string(),
        background: "tree".to_string(),
        abilities: vec![],
    };
    let list = AbilityList::new(builder, &abilities(), &images()).unwrap();
    assert_eq!(list.iter().count(), 0);
}
