//! Artifact kind: candidates are the `obj` fragments of the artifact
//! reference table; each deserializes into a record that is rendered
//! with a sequential identifier.
use vstd::prelude::*;

use crate::entity::{sat_inc, CollectFiles, Scan, ToLua};
use crate::extract::{extract_fragments, fragments_of};
use crate::pak::{
    entry_models, has_key, lemma_key_idx, val_of, FileModel, FileStructure, OverlayStore,
};
use crate::strutil::{dec_of, push_dec};

verus! {

/// One row of the artifact reference table.
#[allow(non_snake_case)]
pub struct ArtObject {
    pub ID: String,
    pub obj: Option<String>,
}

/// The artifact reference table's row list.
pub struct ArtObjects {
    pub arts: Vec<ArtObject>,
}

/// Spec-level image of one artifact record.
pub struct ArtModel {
    pub name_ref: Seq<char>,
    pub desc_ref: Seq<char>,
    pub icon: Seq<char>,
    pub typ: Seq<char>,
    pub slot: Seq<char>,
    pub cost: u32,
    pub sellable: bool,
}

/// One deserialized artifact: its localized-text and icon references
/// (empty when the fragment carried none) and the scalar fields the
/// renderer emits.
pub struct ArtifactRecord {
    pub name_ref: String,
    pub desc_ref: String,
    pub icon: String,
    pub typ: String,
    pub slot: String,
    pub cost: u32,
    pub sellable: bool,
}

impl View for ArtifactRecord {
    type V = ArtModel;

    open spec fn view(&self) -> ArtModel {
        ArtModel {
            name_ref: self.name_ref@,
            desc_ref: self.desc_ref@,
            icon: self.icon@,
            typ: self.typ@,
            slot: self.slot@,
            cost: self.cost,
            sellable: self.sellable,
        }
    }
}

/// What deserializing an artifact fragment yields: a function of the
/// text alone; `None` when the text is not a well-formed artifact.
pub uninterp spec fn art_de(s: Seq<char>) -> Option<ArtModel>;

/// Relies on quick_xml::de::from_str deserializing an artifact
/// element: whether the fragment deserializes, and the fields it
/// carries, depend on the text alone.
#[verifier::external_body]
fn de_artifact(s: &str) -> (r: Option<ArtifactRecord>)
    ensures
        match r {
            Some(rec) => art_de(s@) == Some(rec@),
            None => art_de(s@) is None,
        },
{
    match quick_xml::de::from_str::<homm5_types::art::AdvMapArtifactShared>(s) {
        Ok(a) => Some(ArtifactRecord {
            name_ref: a.NameFileRef.and_then(|f| f.href).unwrap_or_default(),
            desc_ref: a.DescriptionFileRef.and_then(|f| f.href).unwrap_or_default(),
            icon: a.Icon.and_then(|f| f.href).unwrap_or_default(),
            typ: a.Type,
            slot: a.Slot,
            cost: a.CostOfGold,
            sellable: a.CanBeGeneratedToSell,
        }),
        Err(_) => None,
    }
}

impl ToLua for ArtifactRecord {
    type ID = u16;

    open spec fn lua_req(m: ArtModel, id: Option<u16>) -> bool {
        id is Some && id->Some_0 >= 1
    }

    open spec fn lua_of(m: ArtModel, id: Option<u16>) -> Seq<char> {
        "\t["@ + dec_of((id->Some_0 - 1) as nat) + "] = {\n        is_sellable = "@ + (if m.sellable {
            "1"@
        } else {
            "nil"@
        }) + ",\n        name = \""@ + m.name_ref + "\",\n        desc = \""@ + m.desc_ref
            + "\",\n        icon = \""@ + m.icon + "\",\n        cost = "@ + dec_of(m.cost as nat)
            + ",\n        slot = "@ + m.slot + ",\n        type = "@ + m.typ + "\n    },\n"@
    }

    fn to_lua(&self, id: Option<u16>) -> (r: String) {
        let mut r = String::from_str("\t[");
        push_dec((id.unwrap() - 1) as u64, &mut r);
        r.append("] = {\n        is_sellable = ");
        r.append(if self.sellable { "1" } else { "nil" });
        r.append(",\n        name = \"");
        r.append(self.name_ref.as_str());
        r.append("\",\n        desc = \"");
        r.append(self.desc_ref.as_str());
        r.append("\",\n        icon = \"");
        r.append(self.icon.as_str());
        r.append("\",\n        cost = ");
        push_dec(self.cost as u64, &mut r);
        r.append(",\n        slot = ");
        r.append(self.slot.as_str());
        r.append(",\n        type = ");
        r.append(self.typ.as_str());
        r.append("\n    },\n");
        proof {
            assert(r@ =~= Self::lua_of(self@, id));
        }
        r
    }
}

/// The artifact reference table's overlay path.
pub open spec fn art_index_key() -> Seq<char> {
    "gamemechanics/reftables/artifacts.xdb"@
}

/// Selects the `obj` fragments of the artifact reference table as
/// candidates, each carried under the table's own path and timestamp.
pub struct ArtFileCollector {}

impl CollectFiles for ArtFileCollector {
    open spec fn collect_req(&self, files: Seq<(Seq<char>, FileModel)>) -> bool {
        &&& has_key(files, art_index_key())
        &&& fragments_of(val_of(files, art_index_key()).content, "obj"@) is Some
    }

    open spec fn collect_spec(&self, files: Seq<(Seq<char>, FileModel)>) -> Seq<
        (Seq<char>, FileModel),
    > {
        let idx = val_of(files, art_index_key());
        let frs = fragments_of(idx.content, "obj"@)->Some_0;
        frs.map_values(
            |f: Seq<char>|
                (art_index_key(), FileModel { pak: idx.pak, modified: idx.modified, content: f }),
        )
    }

    fn collect(&self, files: &OverlayStore, collected_files: &mut Vec<(String, FileStructure)>) {
        proof {
            lemma_key_idx(files@, art_index_key());
            reveal_strlit("obj");
        }
        let looked = files.lookup("gamemechanics/reftables/artifacts.xdb");
        let arts_xdb = match looked {
            Some(f) => f,
            None => {
                proof {
                    assert(false);
                }
                return ;
            },
        };
        let frags = match extract_fragments(arts_xdb.content.as_str(), "obj") {
            Some(fs) => fs,
            None => {
                proof {
                    assert(false);
                }
                return ;
            },
        };
        let ghost spec_cands = self.collect_spec(files@);
        proof {
            assert(frags.deep_view() == fragments_of(
                val_of(files@, art_index_key()).content,
                "obj"@,
            )->Some_0);
            assert(spec_cands.len() == frags.deep_view().len());
        }
        let n: usize = frags.len();
        let mut i: usize = 0;
        proof {
            assert(entry_models(collected_files@) + spec_cands.subrange(0, 0) =~= entry_models(
                collected_files@,
            ));
        }
        while i < n
            invariant
                n == frags@.len(),
                i <= n,
                spec_cands == self.collect_spec(files@),
                spec_cands.len() == n,
                frags.deep_view() == fragments_of(
                    val_of(files@, art_index_key()).content,
                    "obj"@,
                )->Some_0,
                spec_cands == frags.deep_view().map_values(
                    |f: Seq<char>|
                        (
                            art_index_key(),
                            FileModel {
                                pak: val_of(files@, art_index_key()).pak,
                                modified: val_of(files@, art_index_key()).modified,
                                content: f,
                            },
                        ),
                ),
                arts_xdb@ == val_of(files@, art_index_key()),
                entry_models(collected_files@) == entry_models(old(collected_files)@)
                    + spec_cands.subrange(0, i as int),
            decreases n - i,
        {
            let ghost pre = entry_models(collected_files@);
            let entry = FileStructure {
                pak: arts_xdb.pak.clone(),
                modified: arts_xdb.modified,
                content: frags[i].clone(),
            };
            collected_files.push((String::from_str("gamemechanics/reftables/artifacts.xdb"), entry));
            i += 1;
            proof {
                assert(entry_models(collected_files@) =~= pre.push(spec_cands[i - 1]));
                assert(entry_models(collected_files@) =~= entry_models(old(collected_files)@)
                    + spec_cands.subrange(0, i as int));
            }
        }
        proof {
            assert(spec_cands.subrange(0, n as int) =~= spec_cands);
        }
    }
}

/// Deserializes artifact fragments, assigning each success the next
/// sequential identifier.
pub struct ArtScaner {
    pub id: u16,
}

impl Scan for ArtScaner {
    type ID = u16;

    type Rec = ArtifactRecord;

    open spec fn id_spec(&self) -> Option<u16> {
        Some(self.id)
    }

    open spec fn scan_model(
        &self,
        file_key: Seq<char>,
        entity: Seq<char>,
        files: Seq<(Seq<char>, FileModel)>,
    ) -> (Self, Option<ArtModel>) {
        match art_de(entity) {
            Some(m) => (ArtScaner { id: sat_inc(self.id) }, Some(m)),
            None => (ArtScaner { id: self.id }, None),
        }
    }

    fn scan(&mut self, file_key: &String, entity: &String, files: &OverlayStore) -> (r: Option<
        ArtifactRecord,
    >) {
        match de_artifact(entity.as_str()) {
            Some(art) => {
                if self.id < u16::MAX {
                    self.id = self.id + 1;
                }
                Some(art)
            },
            None => None,
        }
    }

    fn get_id(&self) -> (r: Option<u16>) {
        Some(self.id)
    }
}

} // verus!
