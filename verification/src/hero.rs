//! Hero kind: candidates are found by scanning the whole overlay for
//! documents carrying the hero marker substrings (heroes have no index
//! document); each candidate's first well-formed `AdvMapHeroShared`
//! fragment becomes a record whose references are resolved against the
//! overlay. Heroes are identified by their intrinsic internal name, so
//! no sequential identifier is assigned.
use vstd::prelude::*;

use crate::entity::{configure_path, resolve_spec, CollectFiles, Scan, ToLua};
use crate::extract::{extract_fragments, fragments_of};
use crate::pak::{entry_models, FileModel, FileStructure, OverlayStore};
use crate::strutil::{contains_str, has_sub};
use homm5_types::hero::AdvMapHeroShared;

verus! {

/// Spec-level image of one hero record.
pub struct HeroModel {
    pub internal_name: Seq<char>,
    pub scenario: bool,
    pub class: Seq<char>,
    pub specialization: Seq<char>,
    pub spec_name: Seq<char>,
    pub spec_desc: Seq<char>,
    pub spec_icon: Seq<char>,
    pub face: Seq<char>,
    pub town: Seq<char>,
    pub name_ref: Seq<char>,
    pub bio_ref: Seq<char>,
}

/// One deserialized hero: its intrinsic name, scalar fields, and the
/// six reference fields (empty when the fragment carried none).
pub struct HeroRecord {
    pub internal_name: String,
    pub scenario: bool,
    pub class: String,
    pub specialization: String,
    pub spec_name: String,
    pub spec_desc: String,
    pub spec_icon: String,
    pub face: String,
    pub town: String,
    pub name_ref: String,
    pub bio_ref: String,
}

impl View for HeroRecord {
    type V = HeroModel;

    open spec fn view(&self) -> HeroModel {
        HeroModel {
            internal_name: self.internal_name@,
            scenario: self.scenario,
            class: self.class@,
            specialization: self.specialization@,
            spec_name: self.spec_name@,
            spec_desc: self.spec_desc@,
            spec_icon: self.spec_icon@,
            face: self.face@,
            town: self.town@,
            name_ref: self.name_ref@,
            bio_ref: self.bio_ref@,
        }
    }
}

/// What deserializing a hero fragment yields: a function of the text
/// alone; `None` when the text is not a well-formed hero.
pub uninterp spec fn hero_de(s: Seq<char>) -> Option<HeroModel>;

/// Relies on quick_xml::de::from_str deserializing a hero element:
/// whether the fragment deserializes, and the fields it carries,
/// depend on the text alone.
#[verifier::external_body]
fn de_hero(s: &str) -> (r: Option<HeroRecord>)
    ensures
        match r {
            Some(rec) => hero_de(s@) == Some(rec@),
            None => hero_de(s@) is None,
        },
{
    match quick_xml::de::from_str::<AdvMapHeroShared>(s) {
        Ok(h) => Some(HeroRecord {
            internal_name: h.InternalName, scenario: h.ScenarioHero,
            class: h.Class, specialization: h.Specialization, town: h.TownType,
            spec_name: h.SpecializationNameFileRef.and_then(|f| f.href).unwrap_or_default(),
            spec_desc: h.SpecializationDescFileRef.and_then(|f| f.href).unwrap_or_default(),
            spec_icon: h.SpecializationIcon.and_then(|f| f.href).unwrap_or_default(),
            face: h.FaceTexture.and_then(|f| f.href).unwrap_or_default(),
            name_ref: h.Editable.NameFileRef.and_then(|f| f.href).unwrap_or_default(),
            bio_ref: h.Editable.BiographyFileRef.and_then(|f| f.href).unwrap_or_default() }),
        Err(_) => None,
    }
}

/// The first fragment that deserializes as a hero, in order.
pub open spec fn first_hero_de(frs: Seq<Seq<char>>) -> Option<HeroModel>
    decreases frs.len(),
{
    if frs.len() == 0 {
        None
    } else {
        match hero_de(frs[0]) {
            Some(m) => Some(m),
            None => first_hero_de(frs.drop_first()),
        }
    }
}

/// A scanned hero: every reference field rewritten to a canonical
/// overlay path.
pub open spec fn resolve_hero(
    m: HeroModel,
    file_key: Seq<char>,
    files: Seq<(Seq<char>, FileModel)>,
) -> HeroModel {
    HeroModel {
        internal_name: m.internal_name,
        scenario: m.scenario,
        class: m.class,
        specialization: m.specialization,
        spec_name: resolve_spec(Some(m.spec_name), file_key, files),
        spec_desc: resolve_spec(Some(m.spec_desc), file_key, files),
        spec_icon: resolve_spec(Some(m.spec_icon), file_key, files),
        face: resolve_spec(Some(m.face), file_key, files),
        town: m.town,
        name_ref: resolve_spec(Some(m.name_ref), file_key, files),
        bio_ref: resolve_spec(Some(m.bio_ref), file_key, files),
    }
}

impl ToLua for HeroRecord {
    type ID = String;

    open spec fn lua_req(m: HeroModel, id: Option<String>) -> bool {
        true
    }

    open spec fn lua_of(m: HeroModel, id: Option<String>) -> Seq<char> {
        "\t[\""@ + m.internal_name + "\"] = {\n        is_scenario = "@ + (if m.scenario {
            "1"@
        } else {
            "nil"@
        }) + ",\n        hero_class = "@ + m.class + ",\n        spec = "@ + m.specialization
            + ",\n        spec_name = \""@ + m.spec_name + "\",\n        spec_desc = \""@
            + m.spec_desc + "\",\n        spec_icon = \""@ + m.spec_icon + "\",\n        icon = \""@
            + m.face + "\",\n        town = "@ + m.town + ",\n        name = \""@ + m.name_ref
            + "\",\n        bio = \""@ + m.bio_ref + "\"\n    },\n"@
    }

    fn to_lua(&self, id: Option<String>) -> (r: String) {
        let mut r = String::from_str("\t[\"");
        r.append(self.internal_name.as_str());
        r.append("\"] = {\n        is_scenario = ");
        r.append(if self.scenario { "1" } else { "nil" });
        r.append(",\n        hero_class = ");
        r.append(self.class.as_str());
        r.append(",\n        spec = ");
        r.append(self.specialization.as_str());
        r.append(",\n        spec_name = \"");
        r.append(self.spec_name.as_str());
        r.append("\",\n        spec_desc = \"");
        r.append(self.spec_desc.as_str());
        r.append("\",\n        spec_icon = \"");
        r.append(self.spec_icon.as_str());
        r.append("\",\n        icon = \"");
        r.append(self.face.as_str());
        r.append("\",\n        town = ");
        r.append(self.town.as_str());
        r.append(",\n        name = \"");
        r.append(self.name_ref.as_str());
        r.append("\",\n        bio = \"");
        r.append(self.bio_ref.as_str());
        r.append("\"\n    },\n");
        proof {
            assert(r@ =~= Self::lua_of(self@, id));
        }
        r
    }
}

/// The two marker substrings that identify a hero document.
pub open spec fn hero_marked(m: FileModel) -> bool {
    has_sub(m.content, "AdvMapHeroShared"@) && has_sub(m.content, "ScenarioHero"@)
}

/// Selects every overlay document whose content carries both hero
/// marker substrings, in overlay order — heroes have no index.
pub struct HeroFileCollector {}

impl CollectFiles for HeroFileCollector {
    open spec fn collect_req(&self, files: Seq<(Seq<char>, FileModel)>) -> bool {
        true
    }

    open spec fn collect_spec(&self, files: Seq<(Seq<char>, FileModel)>) -> Seq<
        (Seq<char>, FileModel),
    > {
        files.filter(|p: (Seq<char>, FileModel)| hero_marked(p.1))
    }

    fn collect(&self, files: &OverlayStore, collected_files: &mut Vec<(String, FileStructure)>) {
        let n: usize = files.len();
        let mut i: usize = 0;
        proof {
            reveal(Seq::filter);
            assert(files@.subrange(0, 0) =~= Seq::<(Seq<char>, FileModel)>::empty());
            assert(files@.subrange(0, 0).filter(|p: (Seq<char>, FileModel)| hero_marked(p.1))
                =~= Seq::<(Seq<char>, FileModel)>::empty());
            assert(entry_models(collected_files@) + Seq::<(Seq<char>, FileModel)>::empty()
                =~= entry_models(collected_files@));
        }
        while i < n
            invariant
                n == files@.len(),
                i <= n,
                entry_models(collected_files@) == entry_models(old(collected_files)@)
                    + files@.subrange(0, i as int).filter(
                    |p: (Seq<char>, FileModel)| hero_marked(p.1),
                ),
            decreases n - i,
        {
            let ghost pre = entry_models(collected_files@);
            let (key, entry) = files.at(i);
            let marked = contains_str(entry.content.as_str(), "AdvMapHeroShared") && contains_str(
                entry.content.as_str(),
                "ScenarioHero",
            );
            if marked {
                collected_files.push((key.clone(), entry.duplicate()));
                proof {
                    assert(entry_models(collected_files@) =~= pre.push(files@[i as int]));
                }
            }
            i += 1;
            proof {
                reveal(Seq::filter);
                let sub = files@.subrange(0, i as int);
                assert(sub.drop_last() =~= files@.subrange(0, i - 1));
                assert(sub.last() == files@[i - 1]);
                if hero_marked(files@[i - 1].1) {
                    assert(entry_models(collected_files@) =~= entry_models(old(collected_files)@)
                        + sub.filter(|p: (Seq<char>, FileModel)| hero_marked(p.1)));
                } else {
                    assert(entry_models(collected_files@) =~= entry_models(old(collected_files)@)
                        + sub.filter(|p: (Seq<char>, FileModel)| hero_marked(p.1)));
                }
            }
        }
        proof {
            assert(files@.subrange(0, n as int) =~= files@);
        }
    }
}

/// Extracts each candidate's first well-formed hero fragment and
/// resolves its references; heroes carry their own name, so the cursor
/// is never consulted.
pub struct HeroScaner {}

impl Scan for HeroScaner {
    type ID = String;

    type Rec = HeroRecord;

    open spec fn id_spec(&self) -> Option<String> {
        None
    }

    open spec fn scan_model(
        &self,
        file_key: Seq<char>,
        entity: Seq<char>,
        files: Seq<(Seq<char>, FileModel)>,
    ) -> (Self, Option<HeroModel>) {
        match fragments_of(entity, "AdvMapHeroShared"@) {
            None => (HeroScaner {}, None),
            Some(frs) => match first_hero_de(frs) {
                None => (HeroScaner {}, None),
                Some(m) => (HeroScaner {}, Some(resolve_hero(m, file_key, files))),
            },
        }
    }

    fn scan(&mut self, file_key: &String, entity: &String, files: &OverlayStore) -> (r: Option<
        HeroRecord,
    >) {
        proof {
            reveal_strlit("AdvMapHeroShared");
        }
        let frags = match extract_fragments(entity.as_str(), "AdvMapHeroShared") {
            Some(fs) => fs,
            None => {
                return None;
            },
        };
        let ghost frs = frags.deep_view();
        proof {
            assert(frs.skip(0) =~= frs);
        }
        let n: usize = frags.len();
        let mut i: usize = 0;
        while i < n
            invariant
                n == frags@.len(),
                i <= n,
                frs == frags.deep_view(),
                fragments_of(entity@, "AdvMapHeroShared"@) == Some(frs),
                first_hero_de(frs) == first_hero_de(frs.skip(i as int)),
                *self == *old(self),
            decreases n - i,
        {
            proof {
                assert(frs.skip(i as int)[0] == frs[i as int]);
                assert(frs[i as int] == frags@[i as int]@);
                assert(frs.skip(i as int).drop_first() =~= frs.skip(i + 1));
            }
            match de_hero(frags[i].as_str()) {
                Some(hero) => {
                    let spec_name = configure_path(Some(&hero.spec_name), file_key, files);
                    let spec_desc = configure_path(Some(&hero.spec_desc), file_key, files);
                    let spec_icon = configure_path(Some(&hero.spec_icon), file_key, files);
                    let icon = configure_path(Some(&hero.face), file_key, files);
                    let name = configure_path(Some(&hero.name_ref), file_key, files);
                    let bio = configure_path(Some(&hero.bio_ref), file_key, files);
                    let resolved = HeroRecord {
                        internal_name: hero.internal_name,
                        scenario: hero.scenario,
                        class: hero.class,
                        specialization: hero.specialization,
                        spec_name: spec_name,
                        spec_desc: spec_desc,
                        spec_icon: spec_icon,
                        face: icon,
                        town: hero.town,
                        name_ref: name,
                        bio_ref: bio,
                    };
                    return Some(resolved);
                },
                None => {},
            }
            i += 1;
        }
        proof {
            assert(frs.skip(n as int) =~= Seq::<Seq<char>>::empty());
        }
        None
    }

    fn get_id(&self) -> (r: Option<String>) {
        None
    }
}

} // verus!
