//! Overlay archive store: merges the entries of zip archives into one
//! mapping from normalized (case-folded) path to the winning entry for
//! that path. Later entries replace earlier ones only when strictly
//! newer; paths matching an excluded pattern and directory markers are
//! never stored.
use vstd::prelude::*;

use crate::strutil::{chars_of, contains_str, has_sub, lower_of, str_eq, to_lower};

verus! {

/// Whether `name` matches one of the static path patterns excluded
/// from the overlay (binary assets and unrelated subsystems).
pub open spec fn excluded_name(name: Seq<char>) -> bool {
    ||| has_sub(name, "_(Model)/"@)
    ||| has_sub(name, "Characters/"@)
    ||| has_sub(name, "Arenas/"@)
    ||| has_sub(name, "_(AIGeometry)/"@)
    ||| has_sub(name, "_(BasicSkelAnim)/"@)
    ||| has_sub(name, "_(AnimSet)/"@)
    ||| has_sub(name, "_(CameraSet)/"@)
    ||| has_sub(name, "_(Decal)/"@)
    ||| has_sub(name, "_(DistanceFog)/"@)
    ||| has_sub(name, "_(Geometry)/"@)
    ||| has_sub(name, "_(HeightFog)/"@)
    ||| has_sub(name, "_(Material)/"@)
    ||| has_sub(name, "_(Skeleton)/"@)
    ||| has_sub(name, "_(SunFlares)/"@)
    ||| has_sub(name, "ArenaObjects/"@)
    ||| has_sub(name, "index.bin"@)
    ||| has_sub(name, "bin/"@)
    ||| has_sub(name, "Campaigns/"@)
    ||| has_sub(name, "Cameras/"@)
    ||| has_sub(name, "Custom/"@)
    ||| has_sub(name, "Editor/"@)
    ||| has_sub(name, "_(Effect)/"@)
    ||| has_sub(name, "Lights/"@)
    ||| has_sub(name, "DialogScenes/"@)
    ||| has_sub(name, "RMG/"@)
    ||| has_sub(name, "Scenes/"@)
    ||| has_sub(name, "scripts/"@)
    ||| has_sub(name, "Sounds/"@)
    ||| has_sub(name, "Roots/"@)
    ||| has_sub(name, ".bin"@)
    ||| has_sub(name, ".dds"@)
    ||| has_sub(name, ".ogg"@)
    ||| has_sub(name, ".tga"@)
    ||| has_sub(name, "types.xml"@)
    ||| has_sub(name, ".git"@)
}

/// Whether `name` matches an excluded path pattern.
pub fn is_excluded(name: &str) -> (b: bool)
    ensures
        b == excluded_name(name@),
{
    if contains_str(name, "_(Model)/") {
        return true;
    }
    if contains_str(name, "Characters/") {
        return true;
    }
    if contains_str(name, "Arenas/") {
        return true;
    }
    if contains_str(name, "_(AIGeometry)/") {
        return true;
    }
    if contains_str(name, "_(BasicSkelAnim)/") {
        return true;
    }
    if contains_str(name, "_(AnimSet)/") {
        return true;
    }
    if contains_str(name, "_(CameraSet)/") {
        return true;
    }
    if contains_str(name, "_(Decal)/") {
        return true;
    }
    if contains_str(name, "_(DistanceFog)/") {
        return true;
    }
    if contains_str(name, "_(Geometry)/") {
        return true;
    }
    if contains_str(name, "_(HeightFog)/") {
        return true;
    }
    if contains_str(name, "_(Material)/") {
        return true;
    }
    if contains_str(name, "_(Skeleton)/") {
        return true;
    }
    if contains_str(name, "_(SunFlares)/") {
        return true;
    }
    if contains_str(name, "ArenaObjects/") {
        return true;
    }
    if contains_str(name, "index.bin") {
        return true;
    }
    if contains_str(name, "bin/") {
        return true;
    }
    if contains_str(name, "Campaigns/") {
        return true;
    }
    if contains_str(name, "Cameras/") {
        return true;
    }
    if contains_str(name, "Custom/") {
        return true;
    }
    if contains_str(name, "Editor/") {
        return true;
    }
    if contains_str(name, "_(Effect)/") {
        return true;
    }
    if contains_str(name, "Lights/") {
        return true;
    }
    if contains_str(name, "DialogScenes/") {
        return true;
    }
    if contains_str(name, "RMG/") {
        return true;
    }
    if contains_str(name, "Scenes/") {
        return true;
    }
    if contains_str(name, "scripts/") {
        return true;
    }
    if contains_str(name, "Sounds/") {
        return true;
    }
    if contains_str(name, "Roots/") {
        return true;
    }
    if contains_str(name, ".bin") {
        return true;
    }
    if contains_str(name, ".dds") {
        return true;
    }
    if contains_str(name, ".ogg") {
        return true;
    }
    if contains_str(name, ".tga") {
        return true;
    }
    if contains_str(name, "types.xml") {
        return true;
    }
    if contains_str(name, ".git") {
        return true;
    }
    false
}

/// Spec-level image of one stored file.
pub struct FileModel {
    pub pak: Seq<char>,
    pub modified: int,
    pub content: Seq<char>,
}

/// One file inside the overlay: owning archive name, modification
/// timestamp (archive-native epoch) and decoded textual content.
pub struct FileStructure {
    pub pak: String,
    pub modified: i64,
    pub content: String,
}

impl View for FileStructure {
    type V = FileModel;

    open spec fn view(&self) -> FileModel {
        FileModel { pak: self.pak@, modified: self.modified as int, content: self.content@ }
    }
}

impl FileStructure {
    /// A fresh copy with the same fields.
    pub fn duplicate(&self) -> (r: FileStructure)
        ensures
            r@ == self@,
    {
        FileStructure {
            pak: self.pak.clone(),
            modified: self.modified,
            content: self.content.clone(),
        }
    }
}

/// Spec-level image of one archive entry as read from a zip archive:
/// raw (not yet folded) name, timestamp, and the decoded content, or
/// `None` when the bytes were not valid text.
pub struct RawModel {
    pub name: Seq<char>,
    pub modified: int,
    pub content: Option<Seq<char>>,
}

/// One archive entry as read from a zip archive, before overlay
/// filtering and merging.
pub struct RawEntry {
    pub name: String,
    pub modified: i64,
    pub content: Option<String>,
}

impl View for RawEntry {
    type V = RawModel;

    open spec fn view(&self) -> RawModel {
        RawModel {
            name: self.name@,
            modified: self.modified as int,
            content: match self.content {
                Some(c) => Some(c@),
                None => None,
            },
        }
    }
}

/// The views of a sequence of raw entries.
pub open spec fn raw_models(s: Seq<RawEntry>) -> Seq<RawModel> {
    s.map_values(|e: RawEntry| e@)
}

/// The views of the stored association list.
pub open spec fn entry_models(s: Seq<(String, FileStructure)>) -> Seq<(Seq<char>, FileModel)> {
    s.map_values(|p: (String, FileStructure)| (p.0@, p.1@))
}

/// Whether key `k` is present in the association sequence.
pub open spec fn has_key(v: Seq<(Seq<char>, FileModel)>, k: Seq<char>) -> bool {
    exists|i: int| 0 <= i < v.len() && v[i].0 == k
}

/// The index of the first pair with key `k`; `v.len()` when absent.
pub open spec fn key_idx(v: Seq<(Seq<char>, FileModel)>, k: Seq<char>) -> int
    decreases v.len(),
{
    if v.len() == 0 {
        0
    } else if v[0].0 == k {
        0
    } else {
        1 + key_idx(v.drop_first(), k)
    }
}

/// The value stored under key `k`.
pub open spec fn val_of(v: Seq<(Seq<char>, FileModel)>, k: Seq<char>) -> FileModel {
    v[key_idx(v, k)].1
}

/// `key_idx` finds the first occurrence of `k`, or `v.len()` when `k`
/// is absent.
pub proof fn lemma_key_idx(v: Seq<(Seq<char>, FileModel)>, k: Seq<char>)
    ensures
        0 <= key_idx(v, k) <= v.len(),
        key_idx(v, k) < v.len() ==> v[key_idx(v, k)].0 == k,
        forall|j: int| 0 <= j < key_idx(v, k) ==> v[j].0 != k,
        (key_idx(v, k) < v.len()) == has_key(v, k),
    decreases v.len(),
{
    if v.len() == 0 {
    } else if v[0].0 == k {
    } else {
        lemma_key_idx(v.drop_first(), k);
        assert forall|j: int| 0 <= j < key_idx(v, k) implies v[j].0 != k by {
            if j > 0 {
                assert(v.drop_first()[j - 1] == v[j]);
            }
        }
        if has_key(v, k) {
            let i = choose|i: int| 0 <= i < v.len() && v[i].0 == k;
            assert(v.drop_first()[i - 1].0 == k);
        }
        if has_key(v.drop_first(), k) {
            let i = choose|i: int| 0 <= i < v.drop_first().len() && v.drop_first()[i].0 == k;
            assert(v[i + 1].0 == k);
        }
    }
}

/// Keys are pairwise distinct.
pub open spec fn unique_keys(v: Seq<(Seq<char>, FileModel)>) -> bool {
    forall|i: int, j: int| 0 <= i < j < v.len() ==> v[i].0 != v[j].0
}

/// Whether `name` is a directory marker (ends with a separator).
pub open spec fn dir_marker(name: Seq<char>) -> bool {
    name.len() > 0 && name[name.len() - 1] == '/'
}

/// The overlay after one archive entry has been offered to `v`:
/// excluded names and directory markers change nothing; a new path is
/// inserted (with empty content when the entry did not decode); an
/// existing path is replaced only by a strictly newer entry that
/// decoded.
pub open spec fn offer_spec(
    v: Seq<(Seq<char>, FileModel)>,
    name: Seq<char>,
    pak: Seq<char>,
    modified: int,
    content: Option<Seq<char>>,
) -> Seq<(Seq<char>, FileModel)> {
    if excluded_name(name) || dir_marker(name) {
        v
    } else {
        let k = lower_of(name);
        if has_key(v, k) {
            if val_of(v, k).modified < modified && content is Some {
                v.update(
                    key_idx(v, k),
                    (k, FileModel { pak: pak, modified: modified, content: content->Some_0 }),
                )
            } else {
                v
            }
        } else {
            v.push(
                (
                    k,
                    FileModel {
                        pak: pak,
                        modified: modified,
                        content: match content {
                            Some(c) => c,
                            None => Seq::empty(),
                        },
                    },
                ),
            )
        }
    }
}

/// The overlay after every entry of `entries` has been offered in
/// order.
pub open spec fn ingest_spec(
    v: Seq<(Seq<char>, FileModel)>,
    pak: Seq<char>,
    entries: Seq<RawModel>,
) -> Seq<(Seq<char>, FileModel)>
    decreases entries.len(),
{
    if entries.len() == 0 {
        v
    } else {
        ingest_spec(
            offer_spec(v, entries[0].name, pak, entries[0].modified, entries[0].content),
            pak,
            entries.drop_first(),
        )
    }
}

/// Freshest-wins merge: when the same path arrives from two archives
/// in ingestion order, the later content wins exactly when its
/// timestamp is strictly greater; otherwise the earlier content is
/// retained.
pub proof fn lemma_freshest_wins(
    v: Seq<(Seq<char>, FileModel)>,
    name: Seq<char>,
    pak1: Seq<char>,
    t1: int,
    c1: Seq<char>,
    pak2: Seq<char>,
    t2: int,
    c2: Seq<char>,
)
    requires
        !excluded_name(name),
        !dir_marker(name),
        !has_key(v, lower_of(name)),
    ensures
        ({
            let w = offer_spec(
                offer_spec(v, name, pak1, t1, Some(c1)),
                name,
                pak2,
                t2,
                Some(c2),
            );
            let k = lower_of(name);
            &&& has_key(w, k)
            &&& val_of(w, k).content == if t2 > t1 {
                c2
            } else {
                c1
            }
        }),
{
    let k = lower_of(name);
    let m1 = FileModel { pak: pak1, modified: t1, content: c1 };
    let v1 = v.push((k, m1));
    assert(offer_spec(v, name, pak1, t1, Some(c1)) == v1);
    assert(v1[v.len() as int].0 == k);
    assert(has_key(v1, k));
    lemma_key_idx(v1, k);
    assert forall|j: int| 0 <= j < v.len() implies v1[j].0 != k by {
        assert(v1[j] == v[j]);
        assert(!(0 <= j < v.len() && v[j].0 == k));
    }
    assert(key_idx(v1, k) == v.len());
    assert(val_of(v1, k) == m1);
    if t1 < t2 {
        let m2 = FileModel { pak: pak2, modified: t2, content: c2 };
        let w = v1.update(v.len() as int, (k, m2));
        assert(offer_spec(v1, name, pak2, t2, Some(c2)) == w);
        lemma_key_idx(w, k);
        assert(w[v.len() as int].0 == k);
        assert(has_key(w, k));
        assert forall|j: int| 0 <= j < v.len() implies w[j].0 != k by {
            assert(w[j] == v[j]);
            assert(!(0 <= j < v.len() && v[j].0 == k));
        }
        assert(key_idx(w, k) == v.len());
        assert(val_of(w, k) == m2);
    } else {
        assert(offer_spec(v1, name, pak2, t2, Some(c2)) == v1);
    }
}

/// An offer touches no path other than its own: for any key that is
/// not the offered entry's normalized path, presence and value are
/// unchanged. Together with the freshest-wins law this extends the
/// merge rule across whole archives: entries for other paths between
/// two offers of one path change nothing about it.
pub proof fn lemma_offer_other_keys(
    v: Seq<(Seq<char>, FileModel)>,
    name: Seq<char>,
    pak: Seq<char>,
    t: int,
    c: Option<Seq<char>>,
    k: Seq<char>,
)
    requires
        k != lower_of(name),
    ensures
        has_key(offer_spec(v, name, pak, t, c), k) == has_key(v, k),
        has_key(v, k) ==> val_of(offer_spec(v, name, pak, t, c), k) == val_of(v, k),
{
    let w = offer_spec(v, name, pak, t, c);
    let nk = lower_of(name);
    lemma_key_idx(v, k);
    lemma_key_idx(v, nk);
    lemma_key_idx(w, k);
    if excluded_name(name) || dir_marker(name) {
    } else if has_key(v, nk) {
        if val_of(v, nk).modified < t && c is Some {
            let j = key_idx(v, nk);
            assert(w == v.update(j, (nk, FileModel { pak: pak, modified: t, content: c->Some_0 })));
            assert(w.len() == v.len());
            assert forall|i: int| 0 <= i < v.len() && i != j implies w[i] == v[i] by {}
            if has_key(v, k) {
                let i0 = key_idx(v, k);
                assert(v[i0].0 == k);
                assert(i0 != j);
                assert(w[i0].0 == k);
                assert(has_key(w, k));
                assert forall|i: int| 0 <= i < key_idx(w, k) implies w[i].0 != k by {}
                assert forall|i: int| 0 <= i < i0 implies w[i].0 != k by {
                    if i == j {
                        assert(w[i].0 == nk);
                    } else {
                        assert(w[i] == v[i]);
                    }
                }
                assert(key_idx(w, k) == i0);
                assert(val_of(w, k) == v[i0].1);
            } else {
                if has_key(w, k) {
                    let i1 = choose|i: int| 0 <= i < w.len() && w[i].0 == k;
                    if i1 == j {
                        assert(w[i1].0 == nk);
                    } else {
                        assert(v[i1].0 == k);
                    }
                    assert(false);
                }
            }
        }
    } else {
        assert(w == v.push((nk, FileModel {
            pak: pak,
            modified: t,
            content: match c {
                Some(cc) => cc,
                None => Seq::empty(),
            },
        })));
        if has_key(v, k) {
            let i0 = key_idx(v, k);
            assert(w[i0] == v[i0]);
            assert(has_key(w, k));
            assert forall|i: int| 0 <= i < i0 implies w[i].0 != k by {
                assert(w[i] == v[i]);
            }
            assert(key_idx(w, k) == i0);
        } else {
            if has_key(w, k) {
                let i1 = choose|i: int| 0 <= i < w.len() && w[i].0 == k;
                if i1 == v.len() {
                    assert(w[i1].0 == nk);
                } else {
                    assert(v[i1].0 == k);
                }
                assert(false);
            }
        }
    }
}

/// An entry whose raw path matches an excluded pattern never changes
/// the overlay.
pub proof fn lemma_excluded_unchanged(
    v: Seq<(Seq<char>, FileModel)>,
    name: Seq<char>,
    pak: Seq<char>,
    t: int,
    c: Option<Seq<char>>,
)
    requires
        excluded_name(name),
    ensures
        offer_spec(v, name, pak, t, c) == v,
{
}

/// An ingest consisting only of excluded paths leaves the overlay
/// exactly as it was, whatever the ingestion order; in particular a
/// path matching an excluded pattern is never made present.
pub proof fn lemma_excluded_never_stored(
    v: Seq<(Seq<char>, FileModel)>,
    pak: Seq<char>,
    entries: Seq<RawModel>,
)
    requires
        forall|i: int| 0 <= i < entries.len() ==> excluded_name(#[trigger] entries[i].name),
    ensures
        ingest_spec(v, pak, entries) == v,
    decreases entries.len(),
{
    if entries.len() > 0 {
        assert(excluded_name(entries[0].name));
        lemma_excluded_never_stored(v, pak, entries.drop_first());
    }
}

/// The merged, deduplicated view across all ingested archives: an
/// association list from normalized path to the winning entry, in
/// insertion order.
pub struct OverlayStore {
    entries: Vec<(String, FileStructure)>,
}

impl View for OverlayStore {
    type V = Seq<(Seq<char>, FileModel)>;

    closed spec fn view(&self) -> Seq<(Seq<char>, FileModel)> {
        entry_models(self.entries@)
    }
}

impl OverlayStore {
    /// Well-formed: no path occurs twice.
    pub open spec fn wf(&self) -> bool {
        unique_keys(self@)
    }

    /// An empty overlay.
    pub fn new() -> (r: OverlayStore)
        ensures
            r.wf(),
            r@ == Seq::<(Seq<char>, FileModel)>::empty(),
    {
        let r = OverlayStore { entries: Vec::new() };
        proof {
            assert(r@ =~= Seq::<(Seq<char>, FileModel)>::empty());
        }
        r
    }

    /// How many paths are stored.
    pub fn len(&self) -> (n: usize)
        ensures
            n == self@.len(),
    {
        self.entries.len()
    }

    /// The stored path and entry at position `i`, in insertion order.
    pub fn at(&self, i: usize) -> (r: (&String, &FileStructure))
        requires
            i < self@.len(),
        ensures
            r.0@ == self@[i as int].0,
            r.1@ == self@[i as int].1,
    {
        (&self.entries[i].0, &self.entries[i].1)
    }

    /// The position of the first entry stored under `key`.
    fn find_key(&self, key: &str) -> (r: Option<usize>)
        ensures
            match r {
                Some(j) => j < self@.len() && self@[j as int].0 == key@ && (forall|jj: int|
                    0 <= jj < j ==> self@[jj].0 != key@),
                None => !has_key(self@, key@),
            },
    {
        let n: usize = self.entries.len();
        let mut j: usize = 0;
        while j < n
            invariant
                n == self@.len(),
                n == self.entries@.len(),
                j <= n,
                self@ == entry_models(self.entries@),
                forall|jj: int| 0 <= jj < j ==> self@[jj].0 != key@,
            decreases n - j,
        {
            if str_eq(self.entries[j].0.as_str(), key) {
                return Some(j);
            }
            j += 1;
        }
        None
    }

    /// Pure read of the winning entry for a pre-normalized path.
    pub fn lookup(&self, path: &str) -> (r: Option<&FileStructure>)
        ensures
            match r {
                Some(f) => has_key(self@, path@) && f@ == val_of(self@, path@),
                None => !has_key(self@, path@),
            },
    {
        proof {
            lemma_key_idx(self@, path@);
        }
        match self.find_key(path) {
            Some(j) => {
                proof {
                    assert(has_key(self@, path@));
                    assert(key_idx(self@, path@) == j);
                }
                Some(&self.entries[j].1)
            },
            None => None,
        }
    }

    /// Offers one archive entry to the overlay, merging by the
    /// freshest-wins rule.
    pub fn offer(&mut self, name: &str, pak: &str, modified: i64, content: Option<String>)
        requires
            old(self).wf(),
        ensures
            final(self).wf(),
            final(self)@ == offer_spec(
                old(self)@,
                name@,
                pak@,
                modified as int,
                match content {
                    Some(c) => Some(c@),
                    None => None,
                },
            ),
    {
        if is_excluded(name) {
            return;
        }
        let v = chars_of(name);
        let nlen: usize = v.len();
        if nlen > 0 && v[nlen - 1] == '/' {
            return;
        }
        let key = to_lower(name);
        let ghost c_seen: Option<Seq<char>> = match &content {
            Some(c) => Some(c@),
            None => None,
        };
        proof {
            lemma_key_idx(self@, key@);
        }
        let found: Option<usize> = self.find_key(key.as_str());
        match found {
            Some(j) => {
                proof {
                    assert(has_key(self@, key@));
                    assert(key_idx(self@, key@) == j);
                }
                if self.entries[j].1.modified < modified {
                    match content {
                        Some(c) => {
                            let fresh = FileStructure {
                                pak: String::from_str(pak),
                                modified: modified,
                                content: c,
                            };
                            self.entries.set(j, (key, fresh));
                            proof {
                                assert(self@ =~= offer_spec(
                                    old(self)@,
                                    name@,
                                    pak@,
                                    modified as int,
                                    c_seen,
                                ));
                            }
                        },
                        None => {},
                    }
                }
            },
            None => {
                proof {
                    assert(!has_key(self@, key@));
                }
                let body = match content {
                    Some(c) => c,
                    None => String::new(),
                };
                let fresh = FileStructure {
                    pak: String::from_str(pak),
                    modified: modified,
                    content: body,
                };
                self.entries.push((key, fresh));
                proof {
                    assert(self@ =~= offer_spec(old(self)@, name@, pak@, modified as int, c_seen));
                    assert forall|i: int, jj: int| 0 <= i < jj < self@.len() implies self@[i].0
                        != self@[jj].0 by {
                        if jj < self@.len() - 1 {
                            assert(old(self)@[i] == self@[i]);
                        }
                    }
                }
            },
        }
    }

    /// Offers every entry of one archive, in order.
    pub fn ingest(&mut self, pak: &str, entries: &Vec<RawEntry>)
        requires
            old(self).wf(),
        ensures
            final(self).wf(),
            final(self)@ == ingest_spec(old(self)@, pak@, raw_models(entries@)),
    {
        let n: usize = entries.len();
        let mut i: usize = 0;
        proof {
            assert(entries@.skip(0) =~= entries@);
        }
        while i < n
            invariant
                self.wf(),
                n == entries@.len(),
                i <= n,
                ingest_spec(old(self)@, pak@, raw_models(entries@)) == ingest_spec(
                    self@,
                    pak@,
                    raw_models(entries@.skip(i as int)),
                ),
            decreases n - i,
        {
            let e = &entries[i];
            let content: Option<String> = match &e.content {
                Some(c) => Some(c.clone()),
                None => None,
            };
            let ghost mid = raw_models(entries@.skip(i as int));
            self.offer(e.name.as_str(), pak, e.modified, content);
            i += 1;
            proof {
                assert(mid[0] == entries@[i - 1]@);
                assert(raw_models(entries@.skip(i as int)) =~= mid.drop_first());
            }
        }
        proof {
            assert(raw_models(entries@.skip(n as int)) =~= Seq::<RawModel>::empty());
        }
    }
}

/// What parsing a zip archive from these bytes yields: the entries in
/// central-directory order (name, timestamp, decoded text), or `None`
/// when the bytes are not a valid zip container. A function of the
/// bytes alone.
pub uninterp spec fn zip_entries_of(b: Seq<u8>) -> Option<Seq<RawModel>>;

/// Relies on rc_zip_sync::ReadZip::read_zip on a byte buffer: parses
/// the zip central directory and decompresses each entry; an entry
/// whose bytes are not valid text yields `None` content. The result
/// depends on the bytes alone.
#[verifier::external_body]
fn read_zip_entries(bytes: &Vec<u8>) -> (r: Option<Vec<RawEntry>>)
    ensures
        match r {
            Some(v) => zip_entries_of(bytes@) == Some(raw_models(v@)),
            None => zip_entries_of(bytes@) is None,
        },
{
    let archive = match rc_zip_sync::ReadZip::read_zip(bytes) {
        Ok(a) => a,
        Err(_) => return None,
    };
    Some(archive.entries().map(|e| {
        let mut text = String::new();
        let ok = std::io::Read::read_to_string(&mut e.reader(), &mut text).is_ok();
        RawEntry { name: e.name.clone(), modified: e.modified.timestamp(),
            content: if ok { Some(text) } else { None } }
    }).collect())
}

impl OverlayStore {
    /// Reads one zip archive from its raw bytes and merges every entry
    /// into the overlay; `false` (with the overlay unchanged) when the
    /// bytes are not a valid zip container.
    pub fn ingest_archive(&mut self, pak: &str, bytes: &Vec<u8>) -> (ok: bool)
        requires
            old(self).wf(),
        ensures
            final(self).wf(),
            match zip_entries_of(bytes@) {
                Some(es) => ok && final(self)@ == ingest_spec(old(self)@, pak@, es),
                None => !ok && final(self)@ == old(self)@,
            },
    {
        match read_zip_entries(bytes) {
            Some(entries) => {
                self.ingest(pak, &entries);
                true
            },
            None => false,
        }
    }
}

} // verus!
