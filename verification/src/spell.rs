//! Spell kind: candidates come from the undivided-spell reference
//! table's `objects` list; each candidate file's first well-formed
//! `Spell` fragment becomes a record whose references are resolved
//! against the overlay.
use vstd::prelude::*;

use crate::entity::{
    collect_index_candidates, configure_path, index_candidates_all, resolve_spec, sat_inc,
    CollectFiles, Scan, ToLua,
};
use crate::extract::{extract_fragments, fragments_of};
use crate::pak::{has_key, lemma_key_idx, val_of, FileModel, FileStructure, OverlayStore};
use crate::strutil::{dec_of, lower_of, push_dec, remove_all, remove_all_str, to_lower};

verus! {

/// Spec-level image of one spell record.
pub struct SpellModel {
    pub name_ref: Seq<char>,
    pub desc_ref: Seq<char>,
    pub texture: Seq<char>,
    pub school: Seq<char>,
    pub level: u8,
    pub is_aimed: bool,
    pub is_area: bool,
}

/// One deserialized spell: its localized-text and texture references
/// (empty when the fragment carried none) and the scalar fields the
/// renderer emits.
pub struct SpellRecord {
    pub name_ref: String,
    pub desc_ref: String,
    pub texture: String,
    pub school: String,
    pub level: u8,
    pub is_aimed: bool,
    pub is_area: bool,
}

impl View for SpellRecord {
    type V = SpellModel;

    open spec fn view(&self) -> SpellModel {
        SpellModel {
            name_ref: self.name_ref@,
            desc_ref: self.desc_ref@,
            texture: self.texture@,
            school: self.school@,
            level: self.level,
            is_aimed: self.is_aimed,
            is_area: self.is_area,
        }
    }
}

/// What deserializing a spell fragment yields: a function of the text
/// alone; `None` when the text is not a well-formed spell.
pub uninterp spec fn spell_de(s: Seq<char>) -> Option<SpellModel>;

/// Relies on quick_xml::de::from_str deserializing a spell element:
/// whether the fragment deserializes, and the fields it carries,
/// depend on the text alone.
#[verifier::external_body]
fn de_spell(s: &str) -> (r: Option<SpellRecord>)
    ensures
        match r {
            Some(rec) => spell_de(s@) == Some(rec@),
            None => spell_de(s@) is None,
        },
{
    match quick_xml::de::from_str::<homm5_types::spell::SpellShared>(s) {
        Ok(a) => Some(SpellRecord {
            name_ref: a.NameFileRef.and_then(|f| f.href).unwrap_or_default(),
            desc_ref: a.LongDescriptionFileRef.and_then(|f| f.href).unwrap_or_default(),
            texture: a.Texture.and_then(|f| f.href).unwrap_or_default(),
            school: a.MagicSchool,
            level: a.Level,
            is_aimed: a.IsAimed,
            is_area: a.IsAreaAttack,
        }),
        Err(_) => None,
    }
}

/// The first fragment that deserializes as a spell, in order.
pub open spec fn first_spell_de(frs: Seq<Seq<char>>) -> Option<SpellModel>
    decreases frs.len(),
{
    if frs.len() == 0 {
        None
    } else {
        match spell_de(frs[0]) {
            Some(m) => Some(m),
            None => first_spell_de(frs.drop_first()),
        }
    }
}

/// The fragment-locator suffix spell references carry.
pub open spec fn spell_xp() -> Seq<char> {
    "#xpointer(/Spell)"@
}

/// The texture fragment-locator suffix.
pub open spec fn texture_xp() -> Seq<char> {
    "#xpointer(/Texture)"@
}

/// A scanned spell: the three reference fields rewritten to canonical
/// overlay paths, the texture reference first stripped of its locator
/// suffix and case-folded.
pub open spec fn resolve_spell(
    m: SpellModel,
    file_key: Seq<char>,
    files: Seq<(Seq<char>, FileModel)>,
) -> SpellModel {
    SpellModel {
        name_ref: resolve_spec(Some(m.name_ref), file_key, files),
        desc_ref: resolve_spec(Some(m.desc_ref), file_key, files),
        texture: resolve_spec(
            Some(lower_of(remove_all(m.texture, texture_xp()))),
            file_key,
            files,
        ),
        school: m.school,
        level: m.level,
        is_aimed: m.is_aimed,
        is_area: m.is_area,
    }
}

impl ToLua for SpellRecord {
    type ID = u16;

    open spec fn lua_req(m: SpellModel, id: Option<u16>) -> bool {
        id is Some
    }

    open spec fn lua_of(m: SpellModel, id: Option<u16>) -> Seq<char> {
        "\t["@ + dec_of(id->Some_0 as nat) + "] = {\n        name = \""@ + m.name_ref
            + "\",\n        desc = \""@ + m.desc_ref + "\",\n        icon = \""@ + m.texture
            + "\",\n        school = "@ + m.school + ",\n        level = "@ + dec_of(m.level as nat)
            + ",\n        is_aimed = "@ + (if m.is_aimed {
            "1"@
        } else {
            "nil"@
        }) + ",\n        is_area = "@ + (if m.is_area {
            "1"@
        } else {
            "nil"@
        }) + "\n    },\n"@
    }

    fn to_lua(&self, id: Option<u16>) -> (r: String) {
        let mut r = String::from_str("\t[");
        push_dec(id.unwrap() as u64, &mut r);
        r.append("] = {\n        name = \"");
        r.append(self.name_ref.as_str());
        r.append("\",\n        desc = \"");
        r.append(self.desc_ref.as_str());
        r.append("\",\n        icon = \"");
        r.append(self.texture.as_str());
        r.append("\",\n        school = ");
        r.append(self.school.as_str());
        r.append(",\n        level = ");
        push_dec(self.level as u64, &mut r);
        r.append(",\n        is_aimed = ");
        r.append(if self.is_aimed { "1" } else { "nil" });
        r.append(",\n        is_area = ");
        r.append(if self.is_area { "1" } else { "nil" });
        r.append("\n    },\n");
        proof {
            assert(r@ =~= Self::lua_of(self@, id));
        }
        r
    }
}

/// The spell reference table's overlay path.
pub open spec fn spell_index_key() -> Seq<char> {
    "gamemechanics/reftables/undividedspells.xdb"@
}

/// Selects, from the spell reference table's `objects` lists, every
/// referenced spell file present in the overlay.
pub struct SpellFileCollector {}

impl CollectFiles for SpellFileCollector {
    open spec fn collect_req(&self, files: Seq<(Seq<char>, FileModel)>) -> bool {
        &&& has_key(files, spell_index_key())
        &&& fragments_of(val_of(files, spell_index_key()).content, "objects"@) is Some
    }

    open spec fn collect_spec(&self, files: Seq<(Seq<char>, FileModel)>) -> Seq<
        (Seq<char>, FileModel),
    > {
        index_candidates_all(
            fragments_of(val_of(files, spell_index_key()).content, "objects"@)->Some_0,
            spell_xp(),
            files,
        )
    }

    fn collect(&self, files: &OverlayStore, collected_files: &mut Vec<(String, FileStructure)>) {
        proof {
            lemma_key_idx(files@, spell_index_key());
            reveal_strlit("objects");
        }
        let looked = files.lookup("gamemechanics/reftables/undividedspells.xdb");
        let spells_xdb = match looked {
            Some(f) => f,
            None => {
                proof {
                    assert(false);
                }
                return ;
            },
        };
        collect_index_candidates(
            spells_xdb.content.as_str(),
            "objects",
            "#xpointer(/Spell)",
            files,
            collected_files,
        );
    }
}

/// Extracts each candidate's first well-formed `Spell` fragment,
/// resolves its references, and assigns the next sequential
/// identifier.
pub struct SpellScaner {
    pub id: u16,
}

impl Scan for SpellScaner {
    type ID = u16;

    type Rec = SpellRecord;

    open spec fn id_spec(&self) -> Option<u16> {
        Some(self.id)
    }

    open spec fn scan_model(
        &self,
        file_key: Seq<char>,
        entity: Seq<char>,
        files: Seq<(Seq<char>, FileModel)>,
    ) -> (Self, Option<SpellModel>) {
        match fragments_of(entity, "Spell"@) {
            None => (SpellScaner { id: self.id }, None),
            Some(frs) => match first_spell_de(frs) {
                None => (SpellScaner { id: self.id }, None),
                Some(m) => (
                    SpellScaner { id: sat_inc(self.id) },
                    Some(resolve_spell(m, file_key, files)),
                ),
            },
        }
    }

    fn scan(&mut self, file_key: &String, entity: &String, files: &OverlayStore) -> (r: Option<
        SpellRecord,
    >) {
        proof {
            reveal_strlit("Spell");
        }
        let frags = match extract_fragments(entity.as_str(), "Spell") {
            Some(fs) => fs,
            None => {
                return None;
            },
        };
        let ghost frs = frags.deep_view();
        proof {
            assert(frs.skip(0) =~= frs);
        }
        let n: usize = frags.len();
        let mut i: usize = 0;
        while i < n
            invariant
                n == frags@.len(),
                i <= n,
                frs == frags.deep_view(),
                fragments_of(entity@, "Spell"@) == Some(frs),
                first_spell_de(frs) == first_spell_de(frs.skip(i as int)),
                *self == *old(self),
            decreases n - i,
        {
            proof {
                assert(frs.skip(i as int)[0] == frs[i as int]);
                assert(frs[i as int] == frags@[i as int]@);
                assert(frs.skip(i as int).drop_first() =~= frs.skip(i + 1));
            }
            match de_spell(frags[i].as_str()) {
                Some(spell) => {
                    let name = configure_path(Some(&spell.name_ref), file_key, files);
                    let desc = configure_path(Some(&spell.desc_ref), file_key, files);
                    let stripped = remove_all_str(spell.texture.as_str(), "#xpointer(/Texture)");
                    let icon_key = to_lower(stripped.as_str());
                    let icon = configure_path(Some(&icon_key), file_key, files);
                    let resolved = SpellRecord {
                        name_ref: name,
                        desc_ref: desc,
                        texture: icon,
                        school: spell.school,
                        level: spell.level,
                        is_aimed: spell.is_aimed,
                        is_area: spell.is_area,
                    };
                    if self.id < u16::MAX {
                        self.id = self.id + 1;
                    }
                    return Some(resolved);
                },
                None => {},
            }
            i += 1;
        }
        proof {
            assert(frs.skip(n as int) =~= Seq::<Seq<char>>::empty());
        }
        None
    }

    fn get_id(&self) -> (r: Option<u16>) {
        Some(self.id)
    }
}

} // verus!
