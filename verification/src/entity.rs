//! Generic entity-scan framework: the reference resolver, the
//! capability traits for kind-specific collectors, scanners and
//! renderers, and the driver that turns one overlay into one output
//! table.
use vstd::prelude::*;

use crate::pak::{entry_models, has_key, val_of, FileModel, FileStructure, OverlayStore};
use crate::strutil::{
    chars_of, dir_of, dir_of_str, lower_of, matches_at, push_char, remove_all, string_of, to_lower,
    trim_slashes, trim_slashes_str,
};
use vstd::slice::slice_subrange;

verus! {

/// The canonical overlay path a reference resolves to: an absent or
/// empty reference resolves to the empty string; otherwise the
/// reference is stripped of leading separators and case-folded, kept
/// as is when it already is a global overlay key, and composed with
/// the owning file's directory otherwise.
pub open spec fn resolve_spec(
    path: Option<Seq<char>>,
    file_key: Seq<char>,
    files: Seq<(Seq<char>, FileModel)>,
) -> Seq<char> {
    match path {
        None => Seq::empty(),
        Some(p) => {
            if p.len() == 0 {
                Seq::empty()
            } else {
                let q = lower_of(trim_slashes(p));
                if has_key(files, q) {
                    q
                } else {
                    dir_of(file_key) + seq!['/'] + q
                }
            }
        },
    }
}

/// Resolves one reference string against the overlay, relative to the
/// file that holds it.
pub fn configure_path(path: Option<&String>, file_key: &String, files: &OverlayStore) -> (r: String)
    ensures
        r@ == resolve_spec(
            match path {
                Some(p) => Some(p@),
                None => None,
            },
            file_key@,
            files@,
        ),
{
    match path {
        Some(actual_path) => {
            if actual_path.as_str().is_empty() {
                return String::new();
            }
            let trimmed = trim_slashes_str(actual_path.as_str());
            let actual_path = to_lower(trimmed.as_str());
            match files.lookup(actual_path.as_str()) {
                Some(_) => actual_path,
                None => {
                    let mut actual_name = dir_of_str(file_key.as_str());
                    push_char(&mut actual_name, '/');
                    actual_name.append(actual_path.as_str());
                    proof {
                        assert(actual_name@ =~= dir_of(file_key@) + seq!['/']
                            + lower_of(trim_slashes(path->Some_0@)));
                    }
                    actual_name
                },
            }
        },
        None => String::new(),
    }
}

/// Resolution is idempotent on canonical global keys: a nonempty
/// reference that carries no leading separator, is its own case
/// folding, and is present in the overlay resolves to itself, whatever
/// the owning path.
pub proof fn lemma_resolve_idempotent(
    p: Seq<char>,
    file_key: Seq<char>,
    files: Seq<(Seq<char>, FileModel)>,
)
    requires
        p.len() > 0,
        p[0] != '/',
        lower_of(p) == p,
        has_key(files, p),
    ensures
        resolve_spec(Some(p), file_key, files) == p,
{
    assert(trim_slashes(p) == p);
}

/// An absent or empty reference resolves to the empty string, whatever
/// the owning path and whatever the overlay holds.
pub proof fn lemma_resolve_empty(
    p: Option<Seq<char>>,
    file_key: Seq<char>,
    files: Seq<(Seq<char>, FileModel)>,
)
    requires
        p is None || p->Some_0.len() == 0,
    ensures
        resolve_spec(p, file_key, files).len() == 0,
{
}

/// The attribute opener that reference fields use in index documents.
pub open spec fn href_pat() -> Seq<char> {
    seq!['h', 'r', 'e', 'f', '=', '"']
}

/// The reference strings captured from position `i` on: `incap` while
/// inside a quoted attribute value that began at `cs`. An unterminated
/// value at the end of input is dropped.
pub open spec fn scan_hrefs(s: Seq<char>, i: int, incap: bool, cs: int) -> Seq<Seq<char>>
    decreases s.len() - i,
    when 0 <= i <= s.len()
{
    if i >= s.len() {
        Seq::empty()
    } else if incap {
        if s[i] == '"' {
            seq![s.subrange(cs, i)] + scan_hrefs(s, i + 1, false, 0)
        } else {
            scan_hrefs(s, i + 1, true, cs)
        }
    } else if matches_at(s, href_pat(), i) {
        scan_hrefs(s, i + 6, true, i + 6)
    } else {
        scan_hrefs(s, i + 1, false, 0)
    }
}

/// Every `href="…"` attribute value in `s`, in document order.
pub open spec fn hrefs_of(s: Seq<char>) -> Seq<Seq<char>> {
    scan_hrefs(s, 0, false, 0)
}

/// Collects every `href="…"` attribute value of `content`, in order.
pub fn find_hrefs(content: &str) -> (r: Vec<String>)
    ensures
        r.deep_view() == hrefs_of(content@),
{
    let v = chars_of(content);
    let n: usize = v.len();
    let mut pat: Vec<char> = Vec::new();
    pat.push('h');
    pat.push('r');
    pat.push('e');
    pat.push('f');
    pat.push('=');
    pat.push('"');
    proof {
        assert(pat@ =~= href_pat());
    }
    let mut out: Vec<String> = Vec::new();
    let mut i: usize = 0;
    let mut incap: bool = false;
    let mut cs: usize = 0;
    proof {
        assert(out.deep_view() =~= Seq::<Seq<char>>::empty());
        assert(out.deep_view() + scan_hrefs(v@, 0, false, 0) =~= hrefs_of(content@));
    }
    while i < n
        invariant
            n == v@.len(),
            v@ == content@,
            pat@ == href_pat(),
            i <= n,
            cs <= i,
            hrefs_of(content@) == out.deep_view() + scan_hrefs(
                v@,
                i as int,
                incap,
                cs as int,
            ),
        decreases n - i,
    {
        if incap {
            if v[i] == '"' {
                let ghost pre = out.deep_view();
                let cap = string_of(slice_subrange(v.as_slice(), cs, i));
                out.push(cap);
                proof {
                    assert(out.deep_view() =~= pre.push(v@.subrange(cs as int, i as int)));
                    assert(pre + (seq![v@.subrange(cs as int, i as int)] + scan_hrefs(
                        v@,
                        i + 1,
                        false,
                        0,
                    )) =~= out.deep_view() + scan_hrefs(v@, i + 1, false, 0));
                }
                incap = false;
                cs = 0;
                i += 1;
            } else {
                i += 1;
            }
        } else {
            let is_href = if n - i >= 6 {
                crate::strutil::match_at(&v, &pat, i)
            } else {
                proof {
                    assert(!matches_at(v@, href_pat(), i as int));
                }
                false
            };
            if is_href {
                incap = true;
                cs = i + 6;
                i = i + 6;
            } else {
                cs = 0;
                i += 1;
            }
        }
    }
    proof {
        assert(out.deep_view() + scan_hrefs(v@, n as int, incap, cs as int) =~= out.deep_view());
    }
    out
}

/// The candidates an index document yields: each captured reference,
/// stripped of its fragment-locator suffix `xp` and of leading
/// separators and case-folded, names an overlay path; those present in
/// the overlay are kept with their stored entry, in reference order.
pub open spec fn index_candidates(
    hs: Seq<Seq<char>>,
    xp: Seq<char>,
    files: Seq<(Seq<char>, FileModel)>,
) -> Seq<(Seq<char>, FileModel)>
    decreases hs.len(),
{
    if hs.len() == 0 {
        Seq::empty()
    } else {
        let k = lower_of(trim_slashes(remove_all(hs[0], xp)));
        (if has_key(files, k) {
            seq![(k, val_of(files, k))]
        } else {
            Seq::empty()
        }) + index_candidates(hs.drop_first(), xp, files)
    }
}

/// Resolves each captured reference against the overlay and appends
/// the candidates that are present, in order.
pub fn push_index_candidates(
    hrefs: &Vec<String>,
    xp: &str,
    files: &OverlayStore,
    collected_files: &mut Vec<(String, FileStructure)>,
)
    ensures
        entry_models(final(collected_files)@) == entry_models(old(collected_files)@)
            + index_candidates(hrefs.deep_view(), xp@, files@),
{
    let n: usize = hrefs.len();
    let mut i: usize = 0;
    proof {
        assert(hrefs.deep_view().skip(0) =~= hrefs.deep_view());
        assert(entry_models(collected_files@) + Seq::<(Seq<char>, FileModel)>::empty()
            =~= entry_models(collected_files@));
    }
    while i < n
        invariant
            n == hrefs@.len(),
            i <= n,
            entry_models(collected_files@) == entry_models(old(collected_files)@)
                + index_candidates(
                hrefs.deep_view().subrange(0, i as int),
                xp@,
                files@,
            ),
        decreases n - i,
    {
        let ghost done = hrefs.deep_view().subrange(0, i as int);
        let stripped = crate::strutil::remove_all_str(hrefs[i].as_str(), xp);
        let trimmed = trim_slashes_str(stripped.as_str());
        let key = to_lower(trimmed.as_str());
        match files.lookup(key.as_str()) {
            Some(entry) => {
                proof {
                    crate::pak::lemma_key_idx(files@, key@);
                }
                let ghost pre = entry_models(collected_files@);
                collected_files.push((key, entry.duplicate()));
                proof {
                    assert(entry_models(collected_files@) =~= pre.push(
                        (key@, val_of(files@, key@)),
                    ));
                }
            },
            None => {},
        }
        i += 1;
        proof {
            lemma_index_candidates_snoc(hrefs.deep_view(), i as int, xp@, files@);
            assert(hrefs.deep_view()[i - 1] == hrefs@[i - 1]@);
            let k = lower_of(trim_slashes(remove_all(hrefs.deep_view()[i - 1], xp@)));
            if has_key(files@, k) {
                assert(entry_models(collected_files@) =~= entry_models(old(collected_files)@)
                    + index_candidates(hrefs.deep_view().subrange(0, i as int), xp@, files@));
            } else {
                assert(entry_models(collected_files@) =~= entry_models(old(collected_files)@)
                    + index_candidates(hrefs.deep_view().subrange(0, i as int), xp@, files@));
            }
        }
    }
    proof {
        assert(hrefs.deep_view().subrange(0, n as int) =~= hrefs.deep_view());
    }
}

/// Extending the reference list by one extends its candidates by that
/// reference's candidate, if present.
proof fn lemma_index_candidates_snoc(
    hs: Seq<Seq<char>>,
    i: int,
    xp: Seq<char>,
    files: Seq<(Seq<char>, FileModel)>,
)
    requires
        0 < i <= hs.len(),
    ensures
        ({
            let k = lower_of(trim_slashes(remove_all(hs[i - 1], xp)));
            index_candidates(hs.subrange(0, i), xp, files) == index_candidates(
                hs.subrange(0, i - 1),
                xp,
                files,
            ) + (if has_key(files, k) {
                seq![(k, val_of(files, k))]
            } else {
                Seq::<(Seq<char>, FileModel)>::empty()
            })
        }),
    decreases i,
{
    if i == 1 {
        assert(hs.subrange(0, 1).drop_first() =~= Seq::<Seq<char>>::empty());
        assert(hs.subrange(0, 0) =~= Seq::<Seq<char>>::empty());
        assert(hs.subrange(0, 1)[0] == hs[0]);
        let k = lower_of(trim_slashes(remove_all(hs[0], xp)));
        if has_key(files, k) {
            assert(index_candidates(hs.subrange(0, 1), xp, files) =~= Seq::<(
                Seq<char>,
                FileModel,
            )>::empty() + seq![(k, val_of(files, k))]);
        }
    } else {
        lemma_index_candidates_snoc(hs.drop_first(), i - 1, xp, files);
        assert(hs.subrange(0, i).drop_first() =~= hs.drop_first().subrange(0, i - 1));
        assert(hs.subrange(0, i - 1).drop_first() =~= hs.drop_first().subrange(0, i - 2));
        assert(hs.drop_first()[i - 2] == hs[i - 1]);
        assert(hs.subrange(0, i)[0] == hs[0]);
        assert(hs.subrange(0, i - 1)[0] == hs[0]);
    }
}

/// The candidates that all list fragments of an index document yield,
/// in document order.
pub open spec fn index_candidates_all(
    frs: Seq<Seq<char>>,
    xp: Seq<char>,
    files: Seq<(Seq<char>, FileModel)>,
) -> Seq<(Seq<char>, FileModel)>
    decreases frs.len(),
{
    if frs.len() == 0 {
        Seq::empty()
    } else {
        index_candidates(hrefs_of(frs[0]), xp, files) + index_candidates_all(
            frs.drop_first(),
            xp,
            files,
        )
    }
}

/// Extending the fragment list by one extends its candidates by that
/// fragment's candidates.
proof fn lemma_index_all_snoc(
    frs: Seq<Seq<char>>,
    i: int,
    xp: Seq<char>,
    files: Seq<(Seq<char>, FileModel)>,
)
    requires
        0 < i <= frs.len(),
    ensures
        index_candidates_all(frs.subrange(0, i), xp, files) == index_candidates_all(
            frs.subrange(0, i - 1),
            xp,
            files,
        ) + index_candidates(hrefs_of(frs[i - 1]), xp, files),
    decreases i,
{
    if i == 1 {
        let s1 = frs.subrange(0, 1);
        assert(s1.drop_first() =~= Seq::<Seq<char>>::empty());
        assert(frs.subrange(0, 0) =~= Seq::<Seq<char>>::empty());
        assert(s1[0] == frs[0]);
        assert(index_candidates_all(s1, xp, files) == index_candidates(hrefs_of(s1[0]), xp, files)
            + index_candidates_all(s1.drop_first(), xp, files));
        assert(index_candidates_all(s1.drop_first(), xp, files) =~= Seq::<(
            Seq<char>,
            FileModel,
        )>::empty());
        assert(index_candidates_all(s1, xp, files) =~= index_candidates_all(
            frs.subrange(0, 0),
            xp,
            files,
        ) + index_candidates(hrefs_of(frs[0]), xp, files));
    } else {
        lemma_index_all_snoc(frs.drop_first(), i - 1, xp, files);
        assert(frs.subrange(0, i).drop_first() =~= frs.drop_first().subrange(0, i - 1));
        assert(frs.subrange(0, i - 1).drop_first() =~= frs.drop_first().subrange(0, i - 2));
        assert(frs.drop_first()[i - 2] == frs[i - 1]);
        assert(frs.subrange(0, i)[0] == frs[0]);
        assert(frs.subrange(0, i - 1)[0] == frs[0]);
        assert(index_candidates_all(frs.subrange(0, i), xp, files)
            == index_candidates(hrefs_of(frs[0]), xp, files)
            + index_candidates_all(frs.drop_first().subrange(0, i - 1), xp, files));
        assert((index_candidates(hrefs_of(frs[0]), xp, files)
            + index_candidates_all(frs.drop_first().subrange(0, i - 2), xp, files))
            + index_candidates(hrefs_of(frs[i - 1]), xp, files)
            =~= index_candidates(hrefs_of(frs[0]), xp, files)
            + (index_candidates_all(frs.drop_first().subrange(0, i - 2), xp, files)
            + index_candidates(hrefs_of(frs[i - 1]), xp, files)));
    }
}

/// Collects, from every list fragment of an index document, the
/// referenced overlay entries that are present, in reference order.
pub fn collect_index_candidates(
    index_content: &str,
    list_tag: &str,
    xp: &str,
    files: &OverlayStore,
    collected_files: &mut Vec<(String, FileStructure)>,
)
    requires
        list_tag@.len() > 0,
        crate::extract::fragments_of(index_content@, list_tag@) is Some,
    ensures
        entry_models(final(collected_files)@) == entry_models(old(collected_files)@)
            + index_candidates_all(
            crate::extract::fragments_of(index_content@, list_tag@)->Some_0,
            xp@,
            files@,
        ),
{
    let frags = match crate::extract::extract_fragments(index_content, list_tag) {
        Some(fs) => fs,
        None => {
            proof {
                assert(false);
            }
            return ;
        },
    };
    let ghost frs = frags.deep_view();
    let n: usize = frags.len();
    let mut i: usize = 0;
    proof {
        assert(index_candidates_all(frs.subrange(0, 0), xp@, files@) =~= Seq::<(
            Seq<char>,
            FileModel,
        )>::empty());
        assert(entry_models(collected_files@) + Seq::<(Seq<char>, FileModel)>::empty()
            =~= entry_models(collected_files@));
    }
    while i < n
        invariant
            n == frags@.len(),
            i <= n,
            frs == frags.deep_view(),
            entry_models(collected_files@) == entry_models(old(collected_files)@)
                + index_candidates_all(frs.subrange(0, i as int), xp@, files@),
        decreases n - i,
    {
        let hrefs = find_hrefs(frags[i].as_str());
        proof {
            assert(hrefs.deep_view() == hrefs_of(frs[i as int]));
        }
        let ghost before = entry_models(collected_files@);
        push_index_candidates(&hrefs, xp, files, collected_files);
        i += 1;
        proof {
            lemma_index_all_snoc(frs, i as int, xp@, files@);
            assert(entry_models(collected_files@) =~= entry_models(old(collected_files)@)
                + index_candidates_all(frs.subrange(0, i as int), xp@, files@));
        }
    }
    proof {
        assert(frs.subrange(0, n as int) =~= frs);
    }
}

/// The next cursor value: one more, saturating at the type's maximum.
pub open spec fn sat_inc(id: u16) -> u16 {
    if id == u16::MAX {
        id
    } else {
        (id + 1) as u16
    }
}

/// Kind-specific selection of candidate documents from the overlay.
pub trait CollectFiles {
    /// What this collector needs of the overlay (its index document
    /// present and well-formed, where it has one).
    spec fn collect_req(&self, files: Seq<(Seq<char>, FileModel)>) -> bool;

    /// The ordered candidate list this collector yields.
    spec fn collect_spec(&self, files: Seq<(Seq<char>, FileModel)>) -> Seq<(Seq<char>, FileModel)>;

    /// Appends every candidate `(path, entry)` to `collected_files`.
    fn collect(&self, files: &OverlayStore, collected_files: &mut Vec<(String, FileStructure)>)
        requires
            self.collect_req(files@),
        ensures
            entry_models(final(collected_files)@) == entry_models(old(collected_files)@)
                + self.collect_spec(files@),
    ;
}

/// Kind-specific rendering of one finished record, with its assigned
/// identifier, into one line of the output table.
pub trait ToLua: View + Sized {
    type ID;

    /// When the renderer is defined for this record and identifier.
    spec fn lua_req(m: <Self as View>::V, id: Option<Self::ID>) -> bool;

    /// The rendered line.
    spec fn lua_of(m: <Self as View>::V, id: Option<Self::ID>) -> Seq<char>;

    /// Renders one line of output.
    fn to_lua(&self, id: Option<Self::ID>) -> (r: String)
        requires
            Self::lua_req(self@, id),
        ensures
            r@ == Self::lua_of(self@, id),
    ;
}

/// Kind-specific scanning of one candidate into a typed record with
/// resolved references, assigning identifiers through an internal
/// cursor.
pub trait Scan: Sized {
    type ID;

    type Rec: ToLua<ID = Self::ID>;

    /// The identifier the cursor would hand out now.
    spec fn id_spec(&self) -> Option<Self::ID>;

    /// The scanner state and record (by its model) that scanning one
    /// candidate yields.
    spec fn scan_model(
        &self,
        file_key: Seq<char>,
        entity: Seq<char>,
        files: Seq<(Seq<char>, FileModel)>,
    ) -> (Self, Option<<Self::Rec as View>::V>);

    /// Scans one candidate; `None` (with no identifier consumed) when
    /// the candidate does not deserialize.
    fn scan(&mut self, file_key: &String, entity: &String, files: &OverlayStore) -> (r: Option<
        Self::Rec,
    >)
        ensures
            ({
                let (s2, m) = old(self).scan_model(file_key@, entity@, files@);
                &&& *final(self) == s2
                &&& match (r, m) {
                    (Some(rec), Some(mm)) => rec@ == mm && Self::Rec::lua_req(mm, s2.id_spec()),
                    (None, None) => true,
                    _ => false,
                }
            }),
    ;

    /// The identifier assigned to the record just scanned.
    fn get_id(&self) -> (r: Option<Self::ID>)
        ensures
            r == self.id_spec(),
    ;
}

/// The scanner state and output text that scanning the candidates in
/// order yields: each successfully scanned record's rendered line, in
/// candidate order; failed candidates render nothing and consume no
/// identifier.
pub open spec fn run_fold<S: Scan>(
    scaner: S,
    cands: Seq<(Seq<char>, FileModel)>,
    files: Seq<(Seq<char>, FileModel)>,
) -> (S, Seq<char>)
    decreases cands.len(),
{
    if cands.len() == 0 {
        (scaner, Seq::empty())
    } else {
        let (s2, m) = scaner.scan_model(cands[0].0, cands[0].1.content, files);
        let (s3, rest) = run_fold(s2, cands.drop_first(), files);
        let line = match m {
            Some(mm) => <S::Rec as ToLua>::lua_of(mm, s2.id_spec()),
            None => Seq::empty(),
        };
        (s3, line + rest)
    }
}

/// One table-generation pass for one entity kind: a collector, a
/// scanner, the table's name and the file the caller writes it to.
pub struct ScanProcessor<C, S> {
    pub table_name: String,
    pub output_file_name: String,
    pub collector: C,
    pub scaner: S,
}

impl<C: CollectFiles, S: Scan> ScanProcessor<C, S> {
    /// Bundles one kind's collector and scanner with its table name
    /// and output file name.
    pub fn new(table: String, output: String, collector: C, processor: S) -> (r: Self)
        ensures
            r.table_name == table,
            r.output_file_name == output,
            r.collector == collector,
            r.scaner == processor,
    {
        ScanProcessor {
            table_name: table,
            output_file_name: output,
            collector: collector,
            scaner: processor,
        }
    }

    /// Collects this kind's candidates, scans them in order, and
    /// renders each finished record into the output table: the table
    /// name, an opening brace, one line per successfully scanned
    /// record, and the closing brace.
    pub fn run(&mut self, files: &OverlayStore) -> (r: String)
        requires
            old(self).collector.collect_req(files@),
        ensures
            final(self).table_name == old(self).table_name,
            final(self).output_file_name == old(self).output_file_name,
            final(self).collector == old(self).collector,
            ({
                let (s2, body) = run_fold(
                    old(self).scaner,
                    old(self).collector.collect_spec(files@),
                    files@,
                );
                &&& final(self).scaner == s2
                &&& r@ == old(self).table_name@ + " = {\n"@ + body + "}"@
            }),
    {
        let mut actual_files: Vec<(String, FileStructure)> = Vec::new();
        self.collector.collect(files, &mut actual_files);
        let ghost cands = self.collector.collect_spec(files@);
        proof {
            assert(entry_models(Seq::<(String, FileStructure)>::empty()) =~= Seq::<(
                Seq<char>,
                FileModel,
            )>::empty());
            assert(entry_models(actual_files@) =~= cands);
            assert(cands.skip(0) =~= cands);
        }
        let mut output_string = self.table_name.clone();
        output_string.append(" = {\n");
        let ghost prefix = old(self).table_name@ + " = {\n"@;
        let ghost plen = prefix.len() as int;
        proof {
            assert(output_string@ =~= prefix);
            assert(output_string@.subrange(0, plen) =~= prefix);
            assert(output_string@.skip(plen) =~= Seq::<char>::empty());
            let (sf, rest) = run_fold(self.scaner, cands, files@);
            assert(Seq::<char>::empty() + rest =~= rest);
        }
        let n: usize = actual_files.len();
        let mut i: usize = 0;
        while i < n
            invariant
                n == actual_files@.len(),
                i <= n,
                cands == entry_models(actual_files@),
                cands.len() == n,
                plen == prefix.len() as int,
                self.table_name == old(self).table_name,
                self.output_file_name == old(self).output_file_name,
                self.collector == old(self).collector,
                run_fold(old(self).scaner, cands, files@) == ({
                    let (sf, rest) = run_fold(self.scaner, cands.skip(i as int), files@);
                    (sf, output_string@.skip(plen) + rest)
                }),
                output_string@.subrange(0, plen) == prefix,
                plen <= output_string@.len(),
            decreases n - i,
        {
            let ghost s_before = self.scaner;
            let ghost out_before = output_string@;
            let ghost suffix = cands.skip(i as int);
            proof {
                assert(suffix[0] == cands[i as int]);
                let p = actual_files@[i as int];
                assert(cands[i as int] == (p.0@, p.1@));
            }
            let scanned_file = self.scaner.scan(
                &actual_files[i].0,
                &actual_files[i].1.content,
                files,
            );
            let id = self.scaner.get_id();
            match scanned_file {
                Some(actual_file) => {
                    let line = actual_file.to_lua(id);
                    output_string.append(line.as_str());
                },
                None => {},
            }
            i += 1;
            proof {
                let (s2, m) = s_before.scan_model(suffix[0].0, suffix[0].1.content, files@);
                let (s3, rest2) = run_fold(s2, suffix.drop_first(), files@);
                let line_v: Seq<char> = match m {
                    Some(mm) => <S::Rec as ToLua>::lua_of(mm, s2.id_spec()),
                    None => Seq::empty(),
                };
                assert(run_fold(s_before, suffix, files@) == (s3, line_v + rest2));
                assert(self.scaner == s2);
                assert(output_string@ =~= out_before + line_v);
                assert(suffix.drop_first() =~= cands.skip(i as int));
                assert(output_string@.subrange(0, plen) =~= prefix);
                assert(output_string@.skip(plen) =~= out_before.skip(plen) + line_v);
                assert(out_before.skip(plen) + (line_v + rest2) =~= (out_before.skip(plen)
                    + line_v) + rest2);
            }
        }
        let ghost body = run_fold(old(self).scaner, cands, files@).1;
        proof {
            assert(cands.skip(n as int) =~= Seq::<(Seq<char>, FileModel)>::empty());
            let (sf, rest) = run_fold(self.scaner, cands.skip(n as int), files@);
            assert(rest =~= Seq::<char>::empty());
            assert(output_string@.skip(plen) + rest =~= output_string@.skip(plen));
            assert(body == output_string@.skip(plen));
            assert(output_string@ =~= prefix + body);
        }
        push_char(&mut output_string, '}');
        proof {
            reveal_strlit("}");
            assert("}"@ =~= seq!['}']);
            assert(output_string@ =~= old(self).table_name@ + " = {\n"@ + body + "}"@);
        }
        output_string
    }
}

} // verus!
