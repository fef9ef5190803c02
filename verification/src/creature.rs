//! Creature kind: candidates come from the creature reference table's
//! `objects` list; each candidate file's first well-formed `Creature`
//! fragment becomes a record. A creature's visual sub-document is a
//! two-level dependency: the record's visual reference is resolved,
//! the referenced overlay file is fetched, its first well-formed
//! `CreatureVisual` fragment is deserialized, and that fragment's own
//! references are resolved relative to the visual file's path, not the
//! creature's.
use vstd::prelude::*;

use crate::entity::{
    collect_index_candidates, configure_path, index_candidates_all, resolve_spec, sat_inc,
    CollectFiles, Scan, ToLua,
};
use crate::extract::{extract_fragments, fragments_of};
use crate::pak::{has_key, lemma_key_idx, val_of, FileModel, FileStructure, OverlayStore};
use crate::spell::texture_xp;
use crate::strutil::{
    dec_of, lower_of, push_dec, remove_all, remove_all_str, to_lower, trim_slashes,
    trim_slashes_str,
};
use homm5_types::creature::{AdvMapCreatureShared, CreatureVisual};

verus! {

/// Spec-level image of one creature visual sub-document.
pub struct VisualModel {
    pub name_ref: Seq<char>,
    pub desc_ref: Seq<char>,
    pub icon: Seq<char>,
}

/// One deserialized creature visual: localized name, description and
/// icon references (empty when the fragment carried none).
pub struct VisualRecord {
    pub name_ref: String,
    pub desc_ref: String,
    pub icon: String,
}

impl View for VisualRecord {
    type V = VisualModel;

    open spec fn view(&self) -> VisualModel {
        VisualModel { name_ref: self.name_ref@, desc_ref: self.desc_ref@, icon: self.icon@ }
    }
}

/// Spec-level image of one creature record.
pub struct CreatureModel {
    pub visual: Seq<char>,
    pub visual_explained: Option<VisualModel>,
    pub generatable: bool,
    pub flying: bool,
    pub upgrade: bool,
    pub attack: u16,
    pub defence: u16,
    pub dmg_min: u16,
    pub dmg_max: u16,
    pub health: u32,
    pub town: Seq<char>,
    pub tier: u8,
    pub gold: u32,
}

/// One deserialized creature: its visual reference (empty when the
/// fragment carried none), the visual sub-document once fetched and
/// resolved, and the scalar fields the renderer emits.
pub struct CreatureRecord {
    pub visual: String,
    pub visual_explained: Option<VisualRecord>,
    pub generatable: bool,
    pub flying: bool,
    pub upgrade: bool,
    pub attack: u16,
    pub defence: u16,
    pub dmg_min: u16,
    pub dmg_max: u16,
    pub health: u32,
    pub town: String,
    pub tier: u8,
    pub gold: u32,
}

impl View for CreatureRecord {
    type V = CreatureModel;

    open spec fn view(&self) -> CreatureModel {
        CreatureModel {
            visual: self.visual@,
            visual_explained: match self.visual_explained {
                Some(v) => Some(v@),
                None => None,
            },
            generatable: self.generatable,
            flying: self.flying,
            upgrade: self.upgrade,
            attack: self.attack,
            defence: self.defence,
            dmg_min: self.dmg_min,
            dmg_max: self.dmg_max,
            health: self.health,
            town: self.town@,
            tier: self.tier,
            gold: self.gold,
        }
    }
}

/// What deserializing a creature visual fragment yields: a function of
/// the text alone; `None` when the text is not a well-formed visual.
pub uninterp spec fn visual_de(s: Seq<char>) -> Option<VisualModel>;

/// Relies on quick_xml::de::from_str deserializing a creature visual
/// element: whether the fragment deserializes, and the fields it
/// carries, depend on the text alone.
#[verifier::external_body]
fn de_visual(s: &str) -> (r: Option<VisualRecord>)
    ensures
        match r {
            Some(rec) => visual_de(s@) == Some(rec@),
            None => visual_de(s@) is None,
        },
{
    match quick_xml::de::from_str::<CreatureVisual>(s) {
        Ok(v) => Some(VisualRecord {
            name_ref: v.CreatureNameFileRef.and_then(|f| f.href).unwrap_or_default(),
            desc_ref: v.DescriptionFileRef.and_then(|f| f.href).unwrap_or_default(),
            icon: v.Icon128.and_then(|f| f.href).unwrap_or_default(),
        }),
        Err(_) => None,
    }
}

/// What deserializing a creature fragment yields: a function of the
/// text alone; `None` when the text is not a well-formed creature.
pub uninterp spec fn creature_de(s: Seq<char>) -> Option<CreatureModel>;

/// Relies on quick_xml::de::from_str deserializing a creature element:
/// whether the fragment deserializes, and the fields it carries,
/// depend on the text alone.
#[verifier::external_body]
fn de_creature(s: &str) -> (r: Option<CreatureRecord>)
    ensures
        match r {
            Some(rec) => creature_de(s@) == Some(rec@),
            None => creature_de(s@) is None,
        },
{
    match quick_xml::de::from_str::<AdvMapCreatureShared>(s) {
        Ok(c) => Some(CreatureRecord {
            visual: c.Visual.and_then(|f| f.href).unwrap_or_default(),
            visual_explained: c.VisualExplained.map(|v| VisualRecord {
                name_ref: v.CreatureNameFileRef.and_then(|f| f.href).unwrap_or_default(),
                desc_ref: v.DescriptionFileRef.and_then(|f| f.href).unwrap_or_default(),
                icon: v.Icon128.and_then(|f| f.href).unwrap_or_default() }),
            generatable: c.SubjectOfRandomGeneration, flying: c.Flying, upgrade: c.Upgrade,
            attack: c.AttackSkill, defence: c.DefenceSkill, dmg_min: c.MinDamage,
            dmg_max: c.MaxDamage, health: c.Health, town: c.CreatureTown,
            tier: c.CreatureTier, gold: c.Cost.Gold }),
        Err(_) => None,
    }
}

/// The first fragment that deserializes as a creature visual, in
/// order.
pub open spec fn first_visual_de(frs: Seq<Seq<char>>) -> Option<VisualModel>
    decreases frs.len(),
{
    if frs.len() == 0 {
        None
    } else {
        match visual_de(frs[0]) {
            Some(m) => Some(m),
            None => first_visual_de(frs.drop_first()),
        }
    }
}

/// The first fragment that deserializes as a creature, in order.
pub open spec fn first_creature_de(frs: Seq<Seq<char>>) -> Option<CreatureModel>
    decreases frs.len(),
{
    if frs.len() == 0 {
        None
    } else {
        match creature_de(frs[0]) {
            Some(m) => Some(m),
            None => first_creature_de(frs.drop_first()),
        }
    }
}

/// The fragment-locator suffix creature references carry.
pub open spec fn creature_xp() -> Seq<char> {
    "#xpointer(/Creature)"@
}

/// The fragment-locator suffix creature visual references carry.
pub open spec fn visual_xp() -> Seq<char> {
    "#xpointer(/CreatureVisual)"@
}

/// The resolved visual sub-document taken from the overlay file at
/// `file_key`: its first well-formed `CreatureVisual` fragment with
/// every reference rewritten relative to the visual file's own path;
/// `None` when the file is malformed or no fragment deserializes.
pub open spec fn check_visual_model(
    file_key: Seq<char>,
    content: Seq<char>,
    files: Seq<(Seq<char>, FileModel)>,
) -> Option<VisualModel> {
    match fragments_of(content, "CreatureVisual"@) {
        None => None,
        Some(frs) => match first_visual_de(frs) {
            None => None,
            Some(v) => Some(
                VisualModel {
                    name_ref: resolve_spec(Some(v.name_ref), file_key, files),
                    desc_ref: resolve_spec(Some(v.desc_ref), file_key, files),
                    icon: resolve_spec(
                        Some(remove_all(v.icon, texture_xp())),
                        file_key,
                        files,
                    ),
                },
            ),
        },
    }
}

/// A scanned creature: when it carries a visual reference, that
/// reference is stripped of its locator suffix, normalized and
/// resolved; if the resolved path is present in the overlay, the
/// visual sub-document fetched from there replaces the record's
/// visual-explained field.
pub open spec fn resolve_creature(
    m: CreatureModel,
    file_key: Seq<char>,
    files: Seq<(Seq<char>, FileModel)>,
) -> CreatureModel {
    if m.visual.len() == 0 {
        m
    } else {
        let vkey = lower_of(trim_slashes(remove_all(m.visual, visual_xp())));
        let actual = resolve_spec(Some(vkey), file_key, files);
        if has_key(files, actual) {
            CreatureModel {
                visual_explained: check_visual_model(
                    actual,
                    val_of(files, actual).content,
                    files,
                ),
                ..m
            }
        } else {
            m
        }
    }
}

impl ToLua for CreatureRecord {
    type ID = u16;

    open spec fn lua_req(m: CreatureModel, id: Option<u16>) -> bool {
        id is Some && id->Some_0 >= 1
    }

    open spec fn lua_of(m: CreatureModel, id: Option<u16>) -> Seq<char> {
        "\t["@ + dec_of((id->Some_0 - 1) as nat) + "] = {\n        is_generatable = "@
            + (if m.generatable {
            "1"@
        } else {
            "nil"@
        }) + ",\n        attack = "@ + dec_of(m.attack as nat) + ",\n        defence = "@ + dec_of(
            m.defence as nat,
        ) + ",\n        dmg_min = "@ + dec_of(m.dmg_min as nat) + ",\n        dmg_max = "@ + dec_of(
            m.dmg_max as nat,
        ) + ",\n        health = "@ + dec_of(m.health as nat) + ",\n        town = "@ + m.town
            + ",\n        tier = "@ + dec_of(m.tier as nat) + ",\n        cost = "@ + dec_of(
            m.gold as nat,
        ) + ",\n        name = \""@ + (match m.visual_explained {
            Some(ve) => ve.name_ref,
            None => Seq::<char>::empty(),
        }) + "\",\n        desc = \""@ + (match m.visual_explained {
            Some(ve) => ve.desc_ref,
            None => Seq::<char>::empty(),
        }) + "\",\n        icon = \""@ + (match m.visual_explained {
            Some(ve) => ve.icon,
            None => Seq::<char>::empty(),
        }) + "\",\n        is_flying = "@ + (if m.flying {
            "1"@
        } else {
            "nil"@
        }) + ",\n        is_upgrade = "@ + (if m.upgrade {
            "1"@
        } else {
            "nil"@
        }) + "\n    },\n"@
    }

    fn to_lua(&self, id: Option<u16>) -> (r: String) {
        let mut r = String::from_str("\t[");
        push_dec((id.unwrap() - 1) as u64, &mut r);
        r.append("] = {\n        is_generatable = ");
        r.append(if self.generatable { "1" } else { "nil" });
        r.append(",\n        attack = ");
        push_dec(self.attack as u64, &mut r);
        r.append(",\n        defence = ");
        push_dec(self.defence as u64, &mut r);
        r.append(",\n        dmg_min = ");
        push_dec(self.dmg_min as u64, &mut r);
        r.append(",\n        dmg_max = ");
        push_dec(self.dmg_max as u64, &mut r);
        r.append(",\n        health = ");
        push_dec(self.health as u64, &mut r);
        r.append(",\n        town = ");
        r.append(self.town.as_str());
        r.append(",\n        tier = ");
        push_dec(self.tier as u64, &mut r);
        r.append(",\n        cost = ");
        push_dec(self.gold as u64, &mut r);
        r.append(",\n        name = \"");
        match &self.visual_explained {
            Some(ve) => r.append(ve.name_ref.as_str()),
            None => {},
        }
        r.append("\",\n        desc = \"");
        match &self.visual_explained {
            Some(ve) => r.append(ve.desc_ref.as_str()),
            None => {},
        }
        r.append("\",\n        icon = \"");
        match &self.visual_explained {
            Some(ve) => r.append(ve.icon.as_str()),
            None => {},
        }
        r.append("\",\n        is_flying = ");
        r.append(if self.flying { "1" } else { "nil" });
        r.append(",\n        is_upgrade = ");
        r.append(if self.upgrade { "1" } else { "nil" });
        r.append("\n    },\n");
        proof {
            assert(r@ =~= Self::lua_of(self@, id));
        }
        r
    }
}

/// The creature reference table's overlay path.
pub open spec fn creature_index_key() -> Seq<char> {
    "gamemechanics/reftables/creatures.xdb"@
}

/// Selects, from the creature reference table's `objects` lists, every
/// referenced creature file present in the overlay.
pub struct CreatureFileCollector {}

impl CollectFiles for CreatureFileCollector {
    open spec fn collect_req(&self, files: Seq<(Seq<char>, FileModel)>) -> bool {
        &&& has_key(files, creature_index_key())
        &&& fragments_of(val_of(files, creature_index_key()).content, "objects"@) is Some
    }

    open spec fn collect_spec(&self, files: Seq<(Seq<char>, FileModel)>) -> Seq<
        (Seq<char>, FileModel),
    > {
        index_candidates_all(
            fragments_of(val_of(files, creature_index_key()).content, "objects"@)->Some_0,
            creature_xp(),
            files,
        )
    }

    fn collect(&self, files: &OverlayStore, collected_files: &mut Vec<(String, FileStructure)>) {
        proof {
            lemma_key_idx(files@, creature_index_key());
            reveal_strlit("objects");
        }
        let looked = files.lookup("gamemechanics/reftables/creatures.xdb");
        let creatures_xdb = match looked {
            Some(f) => f,
            None => {
                proof {
                    assert(false);
                }
                return ;
            },
        };
        collect_index_candidates(
            creatures_xdb.content.as_str(),
            "objects",
            "#xpointer(/Creature)",
            files,
            collected_files,
        );
    }
}

/// Extracts each candidate's first well-formed `Creature` fragment,
/// fetches and resolves its visual sub-document, and assigns the next
/// sequential identifier.
pub struct CreatureScaner {
    pub id: u16,
}

impl CreatureScaner {
    /// Fetches the first well-formed `CreatureVisual` fragment of the
    /// given visual file and resolves its references relative to that
    /// file's own path.
    fn check_visual(&self, file_key: &String, content: &String, files: &OverlayStore) -> (r:
        Option<VisualRecord>)
        ensures
            match (r, check_visual_model(file_key@, content@, files@)) {
                (Some(rec), Some(mm)) => rec@ == mm,
                (None, None) => true,
                _ => false,
            },
    {
        proof {
            reveal_strlit("CreatureVisual");
        }
        let frags = match extract_fragments(content.as_str(), "CreatureVisual") {
            Some(fs) => fs,
            None => {
                return None;
            },
        };
        let ghost frs = frags.deep_view();
        proof {
            assert(frs.skip(0) =~= frs);
        }
        let n: usize = frags.len();
        let mut i: usize = 0;
        while i < n
            invariant
                n == frags@.len(),
                i <= n,
                frs == frags.deep_view(),
                fragments_of(content@, "CreatureVisual"@) == Some(frs),
                first_visual_de(frs) == first_visual_de(frs.skip(i as int)),
            decreases n - i,
        {
            proof {
                assert(frs.skip(i as int)[0] == frs[i as int]);
                assert(frs[i as int] == frags@[i as int]@);
                assert(frs.skip(i as int).drop_first() =~= frs.skip(i + 1));
            }
            match de_visual(frags[i].as_str()) {
                Some(visual) => {
                    let name = configure_path(Some(&visual.name_ref), file_key, files);
                    let desc = configure_path(Some(&visual.desc_ref), file_key, files);
                    let icon_key = remove_all_str(visual.icon.as_str(), "#xpointer(/Texture)");
                    let icon = configure_path(Some(&icon_key), file_key, files);
                    return Some(VisualRecord { name_ref: name, desc_ref: desc, icon: icon });
                },
                None => {},
            }
            i += 1;
        }
        proof {
            assert(frs.skip(n as int) =~= Seq::<Seq<char>>::empty());
        }
        None
    }
}

impl Scan for CreatureScaner {
    type ID = u16;

    type Rec = CreatureRecord;

    open spec fn id_spec(&self) -> Option<u16> {
        Some(self.id)
    }

    open spec fn scan_model(
        &self,
        file_key: Seq<char>,
        entity: Seq<char>,
        files: Seq<(Seq<char>, FileModel)>,
    ) -> (Self, Option<CreatureModel>) {
        match fragments_of(entity, "Creature"@) {
            None => (CreatureScaner { id: self.id }, None),
            Some(frs) => match first_creature_de(frs) {
                None => (CreatureScaner { id: self.id }, None),
                Some(m) => (
                    CreatureScaner { id: sat_inc(self.id) },
                    Some(resolve_creature(m, file_key, files)),
                ),
            },
        }
    }

    fn scan(&mut self, file_key: &String, entity: &String, files: &OverlayStore) -> (r: Option<
        CreatureRecord,
    >) {
        proof {
            reveal_strlit("Creature");
        }
        let frags = match extract_fragments(entity.as_str(), "Creature") {
            Some(fs) => fs,
            None => {
                return None;
            },
        };
        let ghost frs = frags.deep_view();
        proof {
            assert(frs.skip(0) =~= frs);
        }
        let n: usize = frags.len();
        let mut i: usize = 0;
        while i < n
            invariant
                n == frags@.len(),
                i <= n,
                frs == frags.deep_view(),
                fragments_of(entity@, "Creature"@) == Some(frs),
                first_creature_de(frs) == first_creature_de(frs.skip(i as int)),
                *self == *old(self),
            decreases n - i,
        {
            proof {
                assert(frs.skip(i as int)[0] == frs[i as int]);
                assert(frs[i as int] == frags@[i as int]@);
                assert(frs.skip(i as int).drop_first() =~= frs.skip(i + 1));
            }
            match de_creature(frags[i].as_str()) {
                Some(creature) => {
                    let mut creature = creature;
                    if !creature.visual.as_str().is_empty() {
                        let stripped = remove_all_str(
                            creature.visual.as_str(),
                            "#xpointer(/CreatureVisual)",
                        );
                        let trimmed = trim_slashes_str(stripped.as_str());
                        let visual_key = to_lower(trimmed.as_str());
                        let actual_visual_key = configure_path(
                            Some(&visual_key),
                            file_key,
                            files,
                        );
                        match files.lookup(actual_visual_key.as_str()) {
                            Some(actual_visual_file) => {
                                let checked = self.check_visual(
                                    &actual_visual_key,
                                    &actual_visual_file.content,
                                    files,
                                );
                                creature.visual_explained = checked;
                            },
                            None => {},
                        }
                    }
                    if self.id < u16::MAX {
                        self.id = self.id + 1;
                    }
                    return Some(creature);
                },
                None => {},
            }
            i += 1;
        }
        proof {
            assert(frs.skip(n as int) =~= Seq::<Seq<char>>::empty());
        }
        None
    }

    fn get_id(&self) -> (r: Option<u16>) {
        Some(self.id)
    }
}

} // verus!
