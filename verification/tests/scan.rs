use pakscan::art::{ArtFileCollector, ArtScaner, ArtifactRecord};
use pakscan::creature::{CreatureFileCollector, CreatureScaner};
use pakscan::entity::{Scan, ScanProcessor, ToLua};
use pakscan::hero::{HeroFileCollector, HeroScaner};
use pakscan::pak::OverlayStore;
use pakscan::spell::{SpellFileCollector, SpellScaner};

fn art_fragment(cost: u32) -> String {
    format!(
        "<obj><Type>ARTF</Type><Slot>RING</Slot><CostOfGold>{}</CostOfGold><CanBeGeneratedToSell>false</CanBeGeneratedToSell></obj>",
        cost
    )
}

#[test]
fn scan_ids_skip_failed_candidates() {
    let store = OverlayStore::new();
    let key = String::from("gamemechanics/reftables/artifacts.xdb");
    let mut scaner = ArtScaner { id: 0 };
    let first = art_fragment(5);
    let broken = String::from("<obj><CostOfGold>notanumber</CostOfGold></obj>");
    let second = art_fragment(7);
    let r1 = scaner.scan(&key, &first, &store);
    assert!(r1.is_some());
    assert_eq!(scaner.get_id(), Some(1));
    let r2 = scaner.scan(&key, &broken, &store);
    assert!(r2.is_none());
    assert_eq!(scaner.get_id(), Some(1));
    let r3 = scaner.scan(&key, &second, &store);
    assert!(r3.is_some());
    assert_eq!(scaner.get_id(), Some(2));
    assert_eq!(r3.unwrap().cost, 7);
}

#[test]
fn artifact_line_exact() {
    let rec = ArtifactRecord {
        name_ref: String::from("text/name.txt"),
        desc_ref: String::new(),
        icon: String::from("icons/a.dds"),
        typ: String::from("ARTF"),
        slot: String::from("RING"),
        cost: 250,
        sellable: true,
    };
    let line = rec.to_lua(Some(1));
    assert_eq!(
        line,
        "\t[0] = {\n        is_sellable = 1,\n        name = \"text/name.txt\",\n        desc = \"\",\n        icon = \"icons/a.dds\",\n        cost = 250,\n        slot = RING,\n        type = ARTF\n    },\n"
    );
}

#[test]
fn freshest_index_drives_the_table() {
    let mut store = OverlayStore::new();
    let index_old = format!("<root>{}</root>", art_fragment(5));
    let index_new = format!("<root>{}</root>", art_fragment(7));
    store.offer(
        "GameMechanics/RefTables/Artifacts.xdb",
        "a.pak",
        100,
        Some(index_old),
    );
    store.offer(
        "GameMechanics/RefTables/Artifacts.xdb",
        "b.pak",
        200,
        Some(index_new),
    );
    let mut processor = ScanProcessor::new(
        String::from("ARTS"),
        String::from("arts.lua"),
        ArtFileCollector {},
        ArtScaner { id: 0 },
    );
    let out = processor.run(&store);
    assert!(out.starts_with("ARTS = {\n"));
    assert!(out.contains("cost = 7"));
    assert!(!out.contains("cost = 5"));
    assert!(out.ends_with("},\n}"));
}

#[test]
fn spell_scan_resolves_references() {
    let mut store = OverlayStore::new();
    store.offer(
        "GameMechanics/RefTables/UndividedSpells.xdb",
        "a.pak",
        1,
        Some(String::from(
            "<root><objects><Item><ID>S1</ID><obj href=\"/spells/Fireball.xdb#xpointer(/Spell)\"/></Item></objects></root>",
        )),
    );
    store.offer(
        "spells/Fireball.xdb",
        "a.pak",
        1,
        Some(String::from(
            "<Spell><NameFileRef href=\"/Text/FireName.txt\"/><LongDescriptionFileRef href=\"desc.txt\"/><Texture href=\"/Tex/Fire.dds#xpointer(/Texture)\"/><Level>3</Level><MagicSchool>FIRE</MagicSchool><IsAimed>true</IsAimed><IsAreaAttack>false</IsAreaAttack></Spell>",
        )),
    );
    let mut processor = ScanProcessor::new(
        String::from("SPELLS"),
        String::from("spells.lua"),
        SpellFileCollector {},
        SpellScaner { id: 0 },
    );
    let out = processor.run(&store);
    assert!(out.starts_with("SPELLS = {\n"));
    assert!(out.contains("\t[1] = {"));
    assert!(out.contains("name = \"spells/text/firename.txt\""));
    assert!(out.contains("desc = \"spells/desc.txt\""));
    assert!(out.contains("icon = \"spells/tex/fire.dds\""));
    assert!(out.contains("school = FIRE"));
    assert!(out.contains("level = 3"));
    assert!(out.contains("is_aimed = 1"));
    assert!(out.contains("is_area = nil"));
}

#[test]
fn hero_scan_resolves_references() {
    let mut store = OverlayStore::new();
    store.offer(
        "Heroes/Orrin.xdb",
        "a.pak",
        1,
        Some(String::from(
            "<AdvMapHeroShared><WaterBased>false</WaterBased><ApplyHeroTrace>false</ApplyHeroTrace><FlyPassable>false</FlyPassable><InternalName>Orrin</InternalName><Class>HERO_CLASS_KNIGHT</Class><Specialization>HERO_SPEC_TRAINER</Specialization><PrimarySkill><Mastery>MASTERY_BASIC</Mastery><SkillID>SKILL_LEADERSHIP</SkillID></PrimarySkill><SpecializationNameFileRef href=\"/Text/SpecName.txt\"/><SpecializationDescFileRef/><SpecializationIcon/><FaceTexture href=\"face.dds\"/><TownType>TOWN_HEAVEN</TownType><Editable><NameFileRef href=\"OrrinName.txt\"/><BiographyFileRef/><Offence>1</Offence><Defence>1</Defence><Spellpower>1</Spellpower><Knowledge>1</Knowledge><Ballista>false</Ballista><FirstAidTent>false</FirstAidTent><AmmoCart>false</AmmoCart></Editable><ScenarioHero>true</ScenarioHero></AdvMapHeroShared>",
        )),
    );
    let mut processor = ScanProcessor::new(
        String::from("HEROES"),
        String::from("heroes.lua"),
        HeroFileCollector {},
        HeroScaner {},
    );
    let out = processor.run(&store);
    assert!(out.starts_with("HEROES = {\n"));
    assert!(out.contains("\t[\"Orrin\"] = {"));
    assert!(out.contains("is_scenario = 1"));
    assert!(out.contains("hero_class = HERO_CLASS_KNIGHT"));
    assert!(out.contains("spec_name = \"heroes/text/specname.txt\""));
    assert!(out.contains("spec_desc = \"\""));
    assert!(out.contains("icon = \"heroes/face.dds\""));
    assert!(out.contains("name = \"heroes/orrinname.txt\""));
    assert!(out.contains("bio = \"\""));
}

#[test]
fn creature_scan_resolves_visual_relative_to_visual_file() {
    let mut store = OverlayStore::new();
    store.offer(
        "GameMechanics/RefTables/Creatures.xdb",
        "a.pak",
        1,
        Some(String::from(
            "<root><objects><Item><ID>C_PEASANT</ID><obj href=\"/Creatures/Peasant.xdb#xpointer(/Creature)\"/></Item></objects></root>",
        )),
    );
    store.offer(
        "Creatures/Peasant.xdb",
        "a.pak",
        1,
        Some(String::from(
            "<Creature><AttackSkill>1</AttackSkill><DefenceSkill>1</DefenceSkill><MinDamage>1</MinDamage><MaxDamage>2</MaxDamage><Speed>4</Speed><Initiative>8</Initiative><Flying>false</Flying><Health>6</Health><KnownSpells/><SpellPoints>0</SpellPoints><Exp>2</Exp><Power>40</Power><CreatureTier>1</CreatureTier><Upgrade>false</Upgrade><PairCreature>NONE</PairCreature><CreatureTown>TOWN_HEAVEN</CreatureTown><MagicElement><First>NONE</First><Second>NONE</Second></MagicElement><WeeklyGrowth>12</WeeklyGrowth><Cost><Wood>0</Wood><Ore>0</Ore><Mercury>0</Mercury><Crystal>0</Crystal><Sulfur>0</Sulfur><Gem>0</Gem><Gold>15</Gold></Cost><SubjectOfRandomGeneration>true</SubjectOfRandomGeneration><CombatSize>1</CombatSize><Visual href=\"Peasant-visual.xdb#xpointer(/CreatureVisual)\"/><Range>0</Range><Abilities/></Creature>",
        )),
    );
    store.offer(
        "Creatures/Peasant-visual.xdb",
        "a.pak",
        1,
        Some(String::from(
            "<x><CreatureVisual><CreatureNameFileRef href=\"PeasantName.txt\"/><DescriptionFileRef href=\"/Text/PeasantDesc.txt\"/><Icon128 href=\"PeasantIcon.dds#xpointer(/Texture)\"/></CreatureVisual></x>",
        )),
    );
    store.offer(
        "Text/PeasantDesc.txt",
        "a.pak",
        1,
        Some(String::from("a peasant")),
    );
    let mut processor = ScanProcessor::new(
        String::from("CREATURES"),
        String::from("creatures.lua"),
        CreatureFileCollector {},
        CreatureScaner { id: 0 },
    );
    let out = processor.run(&store);
    assert!(out.starts_with("CREATURES = {\n"));
    assert!(out.contains("\t[0] = {"));
    assert!(out.contains("is_generatable = 1"));
    assert!(out.contains("dmg_max = 2"));
    assert!(out.contains("cost = 15"));
    assert!(out.contains("name = \"creatures/peasantname.txt\""));
    assert!(out.contains("desc = \"text/peasantdesc.txt\""));
    assert!(out.contains("icon = \"creatures/peasanticon.dds\""));
    assert!(out.contains("is_flying = nil"));
}

#[test]
fn absent_visual_degrades_to_empty_fields() {
    let store = OverlayStore::new();
    let key = String::from("creatures/peasant.xdb");
    let entity = String::from(
        "<Creature><AttackSkill>1</AttackSkill><DefenceSkill>1</DefenceSkill><MinDamage>1</MinDamage><MaxDamage>2</MaxDamage><Speed>4</Speed><Initiative>8</Initiative><Flying>false</Flying><Health>6</Health><KnownSpells/><SpellPoints>0</SpellPoints><Exp>2</Exp><Power>40</Power><CreatureTier>1</CreatureTier><Upgrade>false</Upgrade><PairCreature>NONE</PairCreature><CreatureTown>TOWN_HEAVEN</CreatureTown><MagicElement><First>NONE</First><Second>NONE</Second></MagicElement><WeeklyGrowth>12</WeeklyGrowth><Cost><Wood>0</Wood><Ore>0</Ore><Mercury>0</Mercury><Crystal>0</Crystal><Sulfur>0</Sulfur><Gem>0</Gem><Gold>15</Gold></Cost><SubjectOfRandomGeneration>true</SubjectOfRandomGeneration><CombatSize>1</CombatSize><Visual href=\"Nowhere.xdb#xpointer(/CreatureVisual)\"/><Range>0</Range><Abilities/></Creature>",
    );
    let mut scaner = CreatureScaner { id: 0 };
    let rec = scaner.scan(&key, &entity, &store).unwrap();
    assert!(rec.visual_explained.is_none());
    let line = rec.to_lua(Some(1));
    assert!(line.contains("name = \"\""));
    assert!(line.contains("desc = \"\""));
    assert!(line.contains("icon = \"\""));
}

#[test]
fn missing_candidate_files_are_skipped() {
    let mut store = OverlayStore::new();
    store.offer(
        "GameMechanics/RefTables/UndividedSpells.xdb",
        "a.pak",
        1,
        Some(String::from(
            "<root><objects><Item><ID>S1</ID><obj href=\"/spells/Absent.xdb#xpointer(/Spell)\"/></Item></objects></root>",
        )),
    );
    let mut processor = ScanProcessor::new(
        String::from("SPELLS"),
        String::from("spells.lua"),
        SpellFileCollector {},
        SpellScaner { id: 0 },
    );
    let out = processor.run(&store);
    assert_eq!(out, "SPELLS = {\n}");
}
