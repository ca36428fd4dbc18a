//! The progress of saving units to the cache, and which files of a unit are
//! uploaded.
//!
//! Units that were restored from the cache are not saved again; they are
//! taken out of the total instead. Of the units that are saved, only the
//! files whose content is not already known to the cache are uploaded.
use vstd::prelude::*;

use crate::cargo::rustc::{cross_glibc, is_cross_glibc, RustcTarget};
use crate::hash::Blake3;
use crate::text::{chars_eq, strings_view};
use crate::text::chars_of;

verus! {

broadcast use vstd::string::group_string_axioms;

/// The progress of saving units.
#[derive(Clone, Copy, Eq, PartialEq, Hash, Debug)]
pub struct SaveProgress {
    pub uploaded_units: u64,
    pub total_units: u64,
    pub uploaded_files: u64,
    pub uploaded_bytes: u64,
}

/// A file of a unit to save: the key of its content and its size in bytes.
#[derive(Clone, Copy, Eq, PartialEq, Debug)]
pub struct SaveFile {
    pub key: Blake3,
    pub size: u64,
}

/// A unit to save: its hash, its files, and whether saving it is
/// unsupported (a unit cross-compiled against glibc for another target than
/// the host); an unsupported unit is not saved.
#[derive(Clone, Debug)]
pub struct SaveUnit {
    pub unit_hash: String,
    pub files: Vec<SaveFile>,
    pub unsupported: bool,
}

impl SaveUnit {
    /// A unit to save to the cache server, which takes units of every
    /// target.
    pub fn new(unit_hash: String, files: Vec<SaveFile>) -> (r: SaveUnit)
        ensures
            r.unit_hash@ == unit_hash@,
            r.files@ == files@,
            !r.unsupported,
    {
        SaveUnit { unit_hash, files, unsupported: false }
    }

    /// A unit with target `target` to save to cloud storage on a host whose
    /// target triple is `host`: a unit cross-compiled against glibc is not
    /// supported there.
    pub fn for_storage(unit_hash: String, files: Vec<SaveFile>, target: &RustcTarget, host: &str) -> (r:
        SaveUnit)
        ensures
            r.unit_hash@ == unit_hash@,
            r.files@ == files@,
            r.unsupported == cross_glibc(*target, host@),
    {
        let unsupported = is_cross_glibc(target, host);
        SaveUnit { unit_hash, files, unsupported }
    }
}

/// What was restored from the cache and so is not saved again.
#[derive(Clone, Debug)]
pub struct Restored {
    /// The hashes of the restored units.
    pub units: Vec<String>,
    /// The keys of the restored file contents.
    pub files: Vec<Blake3>,
}

impl Restored {
    /// Whether the lists hold each unit hash and each key at most once, as
    /// the sets they stand for.
    pub open spec fn well_formed(&self) -> bool {
        strings_view(self.units@).no_duplicates() && keys_view(self.files@).no_duplicates()
    }

    /// Nothing restored.
    pub fn new() -> (r: Restored)
        ensures
            r.units@.len() == 0,
            r.files@.len() == 0,
            r.well_formed(),
    {
        let r = Restored { units: Vec::new(), files: Vec::new() };
        assert(strings_view(r.units@) =~= Seq::<Seq<char>>::empty());
        assert(keys_view(r.files@) =~= Seq::<Seq<u8>>::empty());
        r
    }

    /// Records that the unit with hash `h` was restored; a unit already
    /// recorded is not recorded again.
    pub fn add_unit(&mut self, h: &str)
        ensures
            strings_view(final(self).units@) == if strings_view(old(self).units@).contains(h@) {
                strings_view(old(self).units@)
            } else {
                strings_view(old(self).units@).push(h@)
            },
            final(self).files@ == old(self).files@,
            old(self).well_formed() ==> final(self).well_formed(),
    {
        if !contains_text(self.units.as_slice(), h) {
            let ghost before = strings_view(self.units@);
            self.units.push(h.to_owned());
            assert(strings_view(self.units@) =~= before.push(h@));
        }
    }

    /// Records that the content with key `k` was restored; a key already
    /// recorded is not recorded again.
    pub fn add_file(&mut self, k: &Blake3)
        ensures
            keys_view(final(self).files@) == if keys_view(old(self).files@).contains(k@) {
                keys_view(old(self).files@)
            } else {
                keys_view(old(self).files@).push(k@)
            },
            final(self).units@ == old(self).units@,
            old(self).well_formed() ==> final(self).well_formed(),
    {
        if !contains_key(self.files.as_slice(), k) {
            let ghost before = keys_view(self.files@);
            self.files.push(*k);
            assert(keys_view(self.files@) =~= before.push(k@));
        }
    }
}

/// The model of a unit: its hash, the key and size of each file, and
/// whether saving it is unsupported.
pub open spec fn unit_view(u: SaveUnit) -> (Seq<char>, Seq<(Seq<u8>, u64)>, bool) {
    (u.unit_hash@, u.files@.map_values(|f: SaveFile| (f.key@, f.size)), u.unsupported)
}

/// A request to save one unit: its hash and the content keys of all its
/// files, in order.
#[derive(Clone, Debug)]
pub struct CargoSaveUnitRequest {
    pub unit_hash: String,
    pub object_keys: Vec<Blake3>,
}

/// The model of a save request: the unit hash and the content keys.
pub open spec fn request_view(r: CargoSaveUnitRequest) -> (Seq<char>, Seq<Seq<u8>>) {
    (r.unit_hash@, keys_view(r.object_keys@))
}

/// Whether a unit is saved: it was not restored and saving it is supported.
pub open spec fn is_saved(unit: (Seq<char>, Seq<(Seq<u8>, u64)>, bool), skip_units: Seq<Seq<char>>) -> bool {
    !skip_units.contains(unit.0) && !unit.2
}

/// The save requests for `units`: one per saved unit, in the order of the
/// units, with the keys of all the unit's files.
pub open spec fn save_requests_of(
    units: Seq<(Seq<char>, Seq<(Seq<u8>, u64)>, bool)>,
    skip_units: Seq<Seq<char>>,
) -> Seq<(Seq<char>, Seq<Seq<u8>>)>
    decreases units.len(),
{
    if units.len() == 0 {
        seq![]
    } else {
        let r = save_requests_of(units.drop_last(), skip_units);
        let u = units.last();
        if is_saved(u, skip_units) {
            r.push((u.0, u.1.map_values(|f: (Seq<u8>, u64)| f.0)))
        } else {
            r
        }
    }
}

/// The models of a list of units.
pub open spec fn units_view(units: Seq<SaveUnit>) -> Seq<(Seq<char>, Seq<(Seq<u8>, u64)>, bool)> {
    units.map_values(|u: SaveUnit| unit_view(u))
}

/// The number and total size of the files in `files` whose keys are not in
/// `skip`: the files that are uploaded.
pub open spec fn uploads(files: Seq<(Seq<u8>, u64)>, skip: Seq<Seq<u8>>) -> (nat, nat)
    decreases files.len(),
{
    if files.len() == 0 {
        (0, 0)
    } else {
        let (n, b) = uploads(files.drop_last(), skip);
        if skip.contains(files.last().0) {
            (n, b)
        } else {
            (n + 1, b + files.last().1 as nat)
        }
    }
}

/// The positions, in order, of the files of `files` whose keys are not in
/// `skip`: the files that are uploaded.
pub open spec fn upload_positions(files: Seq<(Seq<u8>, u64)>, skip: Seq<Seq<u8>>) -> Seq<int>
    decreases files.len(),
{
    if files.len() == 0 {
        seq![]
    } else {
        let p = upload_positions(files.drop_last(), skip);
        if skip.contains(files.last().0) {
            p
        } else {
            p.push(files.len() - 1)
        }
    }
}

/// The positions in a list of indices, as integers.
pub open spec fn positions(v: Seq<usize>) -> Seq<int> {
    v.map_values(|x: usize| x as int)
}

/// The progress after the first units of `units` are handled, starting from
/// `total` units: a restored or unsupported unit is taken out of the total;
/// any other unit is counted as uploaded together with its uploaded files and
/// bytes. The
/// parts are uploaded units, total units, uploaded files, uploaded bytes.
pub open spec fn progress_after(
    total: nat,
    units: Seq<(Seq<char>, Seq<(Seq<u8>, u64)>, bool)>,
    skip_units: Seq<Seq<char>>,
    skip_files: Seq<Seq<u8>>,
) -> (int, int, int, int)
    decreases units.len(),
{
    if units.len() == 0 {
        (0, total as int, 0, 0)
    } else {
        let (u, t, f, b) = progress_after(total, units.drop_last(), skip_units, skip_files);
        let unit = units.last();
        if skip_units.contains(unit.0) || unit.2 {
            (u, t - 1, f, b)
        } else {
            let (n, s) = uploads(unit.1, skip_files);
            (u + 1, t, f + n, b + s)
        }
    }
}

/// The four counters of a progress.
pub open spec fn counters(p: SaveProgress) -> (int, int, int, int) {
    (p.uploaded_units as int, p.total_units as int, p.uploaded_files as int, p.uploaded_bytes as int)
}

/// Upper bounds on the number and total size of all files of `units`.
pub open spec fn all_files(units: Seq<(Seq<char>, Seq<(Seq<u8>, u64)>, bool)>) -> (nat, nat)
    decreases units.len(),
{
    if units.len() == 0 {
        (0, 0)
    } else {
        let (n, b) = all_files(units.drop_last());
        let (m, c) = uploads(units.last().1, seq![]);
        (n + m, b + c)
    }
}

fn contains_key(keys: &[Blake3], k: &Blake3) -> (r: bool)
    ensures
        r == keys@.map_values(|x: Blake3| x@).contains(k@),
{
    let ghost kv = keys@.map_values(|x: Blake3| x@);
    let mut i: usize = 0;
    while i < keys.len()
        invariant
            kv == keys@.map_values(|x: Blake3| x@),
            i <= keys@.len(),
            forall|j: int| 0 <= j < i ==> kv[j] != k@,
        decreases keys.len() - i,
    {
        let kk: &Blake3 = &keys[i];
        let mut same = true;
        let mut j: usize = 0;
        while j < 32
            invariant
                j <= 32,
                kk@.len() == 32,
                k@.len() == 32,
                same <==> (forall|m: int| 0 <= m < j ==> kk@[m] == k@[m]),
            decreases 32 - j,
        {
            if kk.0[j] != k.0[j] {
                same = false;
            }
            j = j + 1;
        }
        assert(kk@ == keys@[i as int]@);
        if same {
            assert(kv[i as int] =~= k@);
            return true;
        }
        assert(kv[i as int] != k@) by {
            let m = choose|m: int| 0 <= m < 32 && kk@[m] != k@[m];
            assert(kv[i as int][m] != k@[m]);
        }
        i = i + 1;
    }
    false
}

fn contains_text(texts: &[String], t: &str) -> (r: bool)
    ensures
        r == texts@.map_values(|x: String| x@).contains(t@),
{
    let ghost tv = texts@.map_values(|x: String| x@);
    let tc = chars_of(t);
    let mut i: usize = 0;
    while i < texts.len()
        invariant
            tv == texts@.map_values(|x: String| x@),
            tc@ == t@,
            i <= texts@.len(),
            forall|j: int| 0 <= j < i ==> tv[j] != t@,
        decreases texts.len() - i,
    {
        let xc = chars_of(texts[i].as_str());
        if chars_eq(xc.as_slice(), tc.as_slice()) {
            assert(tv[i as int] == t@);
            return true;
        }
        i = i + 1;
    }
    false
}

proof fn lemma_uploads_bounded(files: Seq<(Seq<u8>, u64)>, skip: Seq<Seq<u8>>)
    ensures
        uploads(files, skip).0 <= uploads(files, seq![]).0,
        uploads(files, skip).1 <= uploads(files, seq![]).1,
    decreases files.len(),
{
    if files.len() > 0 {
        lemma_uploads_bounded(files.drop_last(), skip);
    }
}

proof fn lemma_progress_bounded(
    total: nat,
    units: Seq<(Seq<char>, Seq<(Seq<u8>, u64)>, bool)>,
    skip_units: Seq<Seq<char>>,
    skip_files: Seq<Seq<u8>>,
)
    ensures
        ({
            let (u, t, f, b) = progress_after(total, units, skip_units, skip_files);
            &&& 0 <= u <= units.len()
            &&& total - units.len() <= t <= total
            &&& 0 <= f <= all_files(units).0
            &&& 0 <= b <= all_files(units).1
            &&& t - u == total - units.len()
        }),
    decreases units.len(),
{
    if units.len() > 0 {
        lemma_progress_bounded(total, units.drop_last(), skip_units, skip_files);
        lemma_uploads_bounded(units.last().1, skip_files);
    }
}

/// Handles the files of one unit: the positions of the files to upload, and
/// the progress with them counted.
fn unit_uploads(files: &Vec<SaveFile>, skip_files: &[Blake3], progress: &mut SaveProgress) -> (r: Vec<usize>)
    requires
        old(progress).uploaded_files + uploads(files@.map_values(|f: SaveFile| (f.key@, f.size)), seq![]).0
            <= u64::MAX,
        old(progress).uploaded_bytes + uploads(files@.map_values(|f: SaveFile| (f.key@, f.size)), seq![]).1
            <= u64::MAX,
    ensures
        ({
            let fv = files@.map_values(|f: SaveFile| (f.key@, f.size));
            let sv = skip_files@.map_values(|x: Blake3| x@);
            let (n, b) = uploads(fv, sv);
            &&& final(progress).uploaded_files == old(progress).uploaded_files + n
            &&& final(progress).uploaded_bytes == old(progress).uploaded_bytes + b
            &&& final(progress).uploaded_units == old(progress).uploaded_units
            &&& final(progress).total_units == old(progress).total_units
            &&& r@.len() == n
            &&& positions(r@) == upload_positions(fv, sv)
            &&& forall|k: int|
                #![trigger r@[k]]
                0 <= k < r@.len() ==> r@[k] < files@.len() && !sv.contains(fv[r@[k] as int].0)
            &&& forall|k: int, m: int| 0 <= k < m < r@.len() ==> r@[k] < r@[m]
        }),
{
    let ghost fv = files@.map_values(|f: SaveFile| (f.key@, f.size));
    let ghost sv = skip_files@.map_values(|x: Blake3| x@);
    let mut r: Vec<usize> = Vec::new();
    let mut i: usize = 0;
    while i < files.len()
        invariant
            fv == files@.map_values(|f: SaveFile| (f.key@, f.size)),
            sv == skip_files@.map_values(|x: Blake3| x@),
            i <= files@.len(),
            progress.uploaded_files == old(progress).uploaded_files + uploads(fv.take(i as int), sv).0,
            progress.uploaded_bytes == old(progress).uploaded_bytes + uploads(fv.take(i as int), sv).1,
            progress.uploaded_units == old(progress).uploaded_units,
            progress.total_units == old(progress).total_units,
            old(progress).uploaded_files + uploads(fv, seq![]).0 <= u64::MAX,
            old(progress).uploaded_bytes + uploads(fv, seq![]).1 <= u64::MAX,
            r@.len() == uploads(fv.take(i as int), sv).0,
            positions(r@) == upload_positions(fv.take(i as int), sv),
            forall|k: int|
                #![trigger r@[k]]
                0 <= k < r@.len() ==> r@[k] < i && !sv.contains(fv[r@[k] as int].0),
            forall|k: int, m: int| 0 <= k < m < r@.len() ==> r@[k] < r@[m],
        decreases files.len() - i,
    {
        proof {
            assert(fv.take(i + 1).drop_last() =~= fv.take(i as int));
            lemma_uploads_prefix(fv, sv, i as int);
        }
        let f = files[i];
        assert(fv[i as int] == (f.key@, f.size));
        let ghost before = r@;
        if !contains_key(skip_files, &f.key) {
            progress.uploaded_files = progress.uploaded_files + 1;
            progress.uploaded_bytes = progress.uploaded_bytes + f.size;
            r.push(i);
            proof {
                assert(r@ == before.push(i));
                assert(positions(r@) =~= positions(before).push(i as int));
                assert(r@[before.len() as int] == i);
                assert(!sv.contains(fv[i as int].0));
                assert forall|k: int|
                    #![trigger r@[k]]
                    0 <= k < r@.len() implies r@[k] < i + 1 && !sv.contains(fv[r@[k] as int].0) by {
                    if k < before.len() {
                        assert(r@[k] == before[k]);
                        assert(before[k] < i && !sv.contains(fv[before[k] as int].0));
                    }
                }
                assert forall|k: int, m: int| 0 <= k < m < r@.len() implies r@[k] < r@[m] by {
                    if m < before.len() {
                        assert(r@[k] == before[k]);
                        assert(r@[m] == before[m]);
                        assert(before[k] < before[m]);
                    } else {
                        assert(r@[k] == before[k]);
                        assert(before[k] < i);
                    }
                }
            }
        }
        i = i + 1;
    }
    assert(fv.take(files@.len() as int) =~= fv);
    r
}

/// The uploads of a prefix are bounded by the uploads of the whole, with no
/// skipped keys.
proof fn lemma_uploads_prefix(fv: Seq<(Seq<u8>, u64)>, sv: Seq<Seq<u8>>, i: int)
    requires
        0 <= i < fv.len(),
    ensures
        uploads(fv.take(i + 1), sv).0 <= uploads(fv, seq![]).0,
        uploads(fv.take(i + 1), sv).1 <= uploads(fv, seq![]).1,
    decreases fv.len() - i,
{
    lemma_uploads_bounded(fv.take(i + 1), sv);
    lemma_uploads_take_mono(fv, i + 1);
}

proof fn lemma_uploads_take_mono(fv: Seq<(Seq<u8>, u64)>, k: int)
    requires
        0 <= k <= fv.len(),
    ensures
        uploads(fv.take(k), seq![]).0 <= uploads(fv, seq![]).0,
        uploads(fv.take(k), seq![]).1 <= uploads(fv, seq![]).1,
    decreases fv.len() - k,
{
    if k < fv.len() {
        lemma_uploads_take_mono(fv, k + 1);
        assert(fv.take(k + 1).drop_last() =~= fv.take(k));
    } else {
        assert(fv.take(k) =~= fv);
    }
}

impl SaveProgress {
    /// The progress before saving `total_units` units.
    pub fn new(total_units: u64) -> (r: SaveProgress)
        ensures
            counters(r) == (0int, total_units as int, 0int, 0int),
    {
        SaveProgress { uploaded_units: 0, total_units, uploaded_files: 0, uploaded_bytes: 0 }
    }
}

/// Saves the progress of saving `units`, skipping what `skip` says was
/// restored: for each unit, the progress reported after it is handled and
/// the positions of its files to upload (none for a restored unit).
pub fn save_progress(units: &Vec<SaveUnit>, skip: &Restored) -> (r: (Vec<SaveProgress>, Vec<Vec<usize>>))
    requires
        all_files(units_view(units@)).0 <= u64::MAX,
        all_files(units_view(units@)).1 <= u64::MAX,
    ensures
        r.0@.len() == units@.len(),
        r.1@.len() == units@.len(),
        forall|i: int|
            0 <= i < units@.len() ==> counters(#[trigger] r.0@[i]) == progress_after(
                units@.len() as nat,
                units_view(units@).take(i + 1),
                skip.units@.map_values(|x: String| x@),
                skip.files@.map_values(|x: Blake3| x@),
            ),
        forall|i: int, k: int|
            0 <= i < units@.len() && 0 <= k < r.1@[i]@.len() ==> #[trigger] r.1@[i]@[k]
                < units@[i].files@.len() && !skip.files@.map_values(|x: Blake3| x@).contains(
                units@[i].files@[r.1@[i]@[k] as int].key@,
            ),
        forall|i: int|
            #![trigger r.1@[i]]
            0 <= i < units@.len() && (skip.units@.map_values(|x: String| x@).contains(
                units@[i].unit_hash@,
            ) || units@[i].unsupported) ==> r.1@[i]@.len() == 0,
        forall|i: int|
            #![trigger r.1@[i]]
            0 <= i < units@.len() && !skip.units@.map_values(|x: String| x@).contains(
                units@[i].unit_hash@,
            ) && !units@[i].unsupported ==> positions(r.1@[i]@) == upload_positions(
                unit_view(units@[i]).1,
                skip.files@.map_values(|x: Blake3| x@),
            ),
{
    let ghost uv = units_view(units@);
    let ghost su = skip.units@.map_values(|x: String| x@);
    let ghost sf = skip.files@.map_values(|x: Blake3| x@);
    let n = units.len();
    let mut progress = SaveProgress::new(n as u64);
    let mut reports: Vec<SaveProgress> = Vec::new();
    let mut plans: Vec<Vec<usize>> = Vec::new();
    let mut i: usize = 0;
    assert(uv.take(0) =~= Seq::<(Seq<char>, Seq<(Seq<u8>, u64)>, bool)>::empty());
    while i < units.len()
        invariant
            n == units@.len(),
            uv == units_view(units@),
            su == skip.units@.map_values(|x: String| x@),
            sf == skip.files@.map_values(|x: Blake3| x@),
            all_files(uv).0 <= u64::MAX,
            all_files(uv).1 <= u64::MAX,
            i <= units@.len(),
            counters(progress) == progress_after(n as nat, uv.take(i as int), su, sf),
            reports@.len() == i,
            plans@.len() == i,
            forall|j: int|
                0 <= j < i ==> counters(#[trigger] reports@[j]) == progress_after(
                    n as nat,
                    uv.take(j + 1),
                    su,
                    sf,
                ),
            forall|j: int, k: int|
                0 <= j < i && 0 <= k < plans@[j]@.len() ==> #[trigger] plans@[j]@[k]
                    < units@[j].files@.len() && !sf.contains(units@[j].files@[plans@[j]@[k] as int].key@),
            forall|j: int|
                #![trigger plans@[j]]
                0 <= j < i && (su.contains(units@[j].unit_hash@) || units@[j].unsupported)
                    ==> plans@[j]@.len() == 0,
            forall|j: int|
                #![trigger plans@[j]]
                0 <= j < i && !su.contains(units@[j].unit_hash@) && !units@[j].unsupported
                    ==> positions(plans@[j]@) == upload_positions(unit_view(units@[j]).1, sf),
        decreases units.len() - i,
    {
        let unit = &units[i];
        proof {
            assert(uv.take(i + 1).drop_last() =~= uv.take(i as int));
            assert(uv.take(i + 1).last() == unit_view(*unit));
            lemma_progress_bounded(n as nat, uv.take(i as int), su, sf);
            lemma_all_files_take(uv, i as int);
        }
        if contains_text(skip.units.as_slice(), unit.unit_hash.as_str()) || unit.unsupported {
            progress.total_units = progress.total_units - 1;
            plans.push(Vec::new());
        } else {
            let plan = unit_uploads(&unit.files, skip.files.as_slice(), &mut progress);
            progress.uploaded_units = progress.uploaded_units + 1;
            proof {
                let fv = unit.files@.map_values(|f: SaveFile| (f.key@, f.size));
                assert(fv == uv.take(i + 1).last().1);
                assert forall|k: int| 0 <= k < plan@.len() implies fv[plan@[k] as int].0
                    == unit.files@[plan@[k] as int].key@ by {}
            }
            plans.push(plan);
        }
        reports.push(progress);
        i = i + 1;
    }
    (reports, plans)
}

/// The save requests for `units`, skipping what `skip` says was restored
/// and the units whose saving is unsupported: one request per saved unit, in
/// the order of the units.
pub fn save_requests(units: &Vec<SaveUnit>, skip: &Restored) -> (r: Vec<CargoSaveUnitRequest>)
    ensures
        r@.map_values(|q: CargoSaveUnitRequest| request_view(q)) == save_requests_of(
            units_view(units@),
            skip.units@.map_values(|x: String| x@),
        ),
{
    let ghost uv = units_view(units@);
    let ghost su = skip.units@.map_values(|x: String| x@);
    let mut r: Vec<CargoSaveUnitRequest> = Vec::new();
    let mut i: usize = 0;
    assert(uv.take(0) =~= Seq::<(Seq<char>, Seq<(Seq<u8>, u64)>, bool)>::empty());
    while i < units.len()
        invariant
            uv == units_view(units@),
            su == skip.units@.map_values(|x: String| x@),
            i <= units@.len(),
            r@.map_values(|q: CargoSaveUnitRequest| request_view(q)) == save_requests_of(
                uv.take(i as int),
                su,
            ),
        decreases units.len() - i,
    {
        let unit = &units[i];
        proof {
            assert(uv.take(i + 1).drop_last() =~= uv.take(i as int));
            assert(uv.take(i + 1).last() == unit_view(*unit));
        }
        let ghost before = r@;
        if !contains_text(skip.units.as_slice(), unit.unit_hash.as_str()) && !unit.unsupported {
            let mut keys: Vec<Blake3> = Vec::new();
            let mut k: usize = 0;
            while k < unit.files.len()
                invariant
                    k <= unit.files@.len(),
                    keys@.len() == k,
                    forall|m: int| 0 <= m < k ==> #[trigger] keys@[m] == unit.files@[m].key,
                decreases unit.files.len() - k,
            {
                keys.push(unit.files[k].key);
                k = k + 1;
            }
            proof {
                assert(keys_view(keys@) =~= unit_view(*unit).1.map_values(|f: (Seq<u8>, u64)| f.0));
            }
            r.push(CargoSaveUnitRequest { unit_hash: unit.unit_hash.clone(), object_keys: keys });
            proof {
                assert(r@.map_values(|q: CargoSaveUnitRequest| request_view(q)) =~= before.map_values(
                    |q: CargoSaveUnitRequest| request_view(q),
                ).push(request_view(r@[before.len() as int])));
            }
        }
        i = i + 1;
    }
    assert(uv.take(units@.len() as int) =~= uv);
    r
}

/// Exactly one save request is made per unit counted as uploaded: the number
/// of requests is the final count of uploaded units, and the request for the
/// `k`-th saved unit names that unit.
pub proof fn lemma_requests_match_progress(
    units: Seq<(Seq<char>, Seq<(Seq<u8>, u64)>, bool)>,
    skip_units: Seq<Seq<char>>,
    skip_files: Seq<Seq<u8>>,
)
    ensures
        save_requests_of(units, skip_units).len() == progress_after(
            units.len(),
            units,
            skip_units,
            skip_files,
        ).0,
        forall|k: int|
            0 <= k < save_requests_of(units, skip_units).len() ==> exists|i: int|
                0 <= i < units.len() && is_saved(units[i], skip_units) && (#[trigger] save_requests_of(
                    units,
                    skip_units,
                )[k]).0 == units[i].0,
    decreases units.len(),
{
    if units.len() > 0 {
        let init = units.drop_last();
        lemma_requests_match_progress(init, skip_units, skip_files);
        lemma_progress_total_irrelevant(units.len(), init.len(), init, skip_units, skip_files);
        let r = save_requests_of(units, skip_units);
        let ri = save_requests_of(init, skip_units);
        assert forall|k: int| 0 <= k < r.len() implies exists|i: int|
            0 <= i < units.len() && is_saved(units[i], skip_units) && (#[trigger] r[k]).0 == units[i].0 by {
            if k < ri.len() {
                assert(r[k] == ri[k]);
                let i = choose|i: int|
                    0 <= i < init.len() && is_saved(init[i], skip_units) && ri[k].0 == init[i].0;
                assert(units[i] == init[i]);
            } else {
                assert(units[units.len() - 1] == units.last());
            }
        }
    }
}

/// The counts of uploaded units, files and bytes do not depend on the
/// starting total.
proof fn lemma_progress_total_irrelevant(
    t1: nat,
    t2: nat,
    units: Seq<(Seq<char>, Seq<(Seq<u8>, u64)>, bool)>,
    skip_units: Seq<Seq<char>>,
    skip_files: Seq<Seq<u8>>,
)
    ensures
        progress_after(t1, units, skip_units, skip_files).0 == progress_after(t2, units, skip_units, skip_files).0,
    decreases units.len(),
{
    if units.len() > 0 {
        lemma_progress_total_irrelevant(t1, t2, units.drop_last(), skip_units, skip_files);
    }
}

/// The files of a prefix of the units are among the files of all units.
proof fn lemma_all_files_take(uv: Seq<(Seq<char>, Seq<(Seq<u8>, u64)>, bool)>, i: int)
    requires
        0 <= i < uv.len(),
    ensures
        all_files(uv.take(i)).0 + uploads(uv[i].1, seq![]).0 <= all_files(uv).0,
        all_files(uv.take(i)).1 + uploads(uv[i].1, seq![]).1 <= all_files(uv).1,
    decreases uv.len() - i,
{
    assert(uv.take(i + 1).drop_last() =~= uv.take(i));
    if i + 1 < uv.len() {
        lemma_all_files_take(uv, i + 1);
    } else {
        assert(uv.take(i + 1) =~= uv);
    }
}

/// After every unit has been handled, every unit still counted has been
/// uploaded; after `i` units, as many units remain to be uploaded as remain
/// to be handled.
pub proof fn lemma_save_progress_completes(
    units: Seq<(Seq<char>, Seq<(Seq<u8>, u64)>, bool)>,
    skip_units: Seq<Seq<char>>,
    skip_files: Seq<Seq<u8>>,
    i: int,
)
    requires
        0 <= i <= units.len(),
    ensures
        ({
            let (u, t, f, b) = progress_after(units.len(), units.take(i), skip_units, skip_files);
            t - u == units.len() - i
        }),
        ({
            let (u, t, f, b) = progress_after(units.len(), units, skip_units, skip_files);
            u == t
        }),
{
    lemma_progress_bounded(units.len(), units.take(i), skip_units, skip_files);
    lemma_progress_bounded(units.len(), units, skip_units, skip_files);
}


// ---------------------------------------------------------------------------
// Restoring units
// ---------------------------------------------------------------------------

/// What restoring does with a requested unit.
#[derive(Copy, Clone, PartialEq, Eq, Debug)]
pub enum UnitRestoreAction {
    /// The cache has no entry for the unit; a unit that is fresh locally has
    /// its modification time set to the starting time.
    Missing { touch: bool },
    /// The unit is fresh locally: its files are kept and their modification
    /// time is set to the unit's time.
    KeepLocal { mtime_secs: u64 },
    /// The unit's files are restored from the cache with the unit's time.
    Restore { mtime_secs: u64 },
}

/// The action for the unit at position `index` of the requested units: the
/// units' modification times are the starting time plus one second per
/// position, so that they keep the order of the plan.
pub open spec fn restore_action_of(index: u64, in_cache: bool, fresh_locally: bool) -> UnitRestoreAction {
    if !in_cache {
        UnitRestoreAction::Missing { touch: fresh_locally }
    } else if fresh_locally {
        UnitRestoreAction::KeepLocal { mtime_secs: index }
    } else {
        UnitRestoreAction::Restore { mtime_secs: index }
    }
}

/// The action for each requested unit, given for each whether the cache has
/// it and whether it is fresh locally.
pub fn restore_actions(units: &[(bool, bool)]) -> (r: Vec<UnitRestoreAction>)
    ensures
        r@.len() == units@.len(),
        forall|i: int|
            0 <= i < units@.len() ==> #[trigger] r@[i] == restore_action_of(
                i as u64,
                units@[i].0,
                units@[i].1,
            ),
{
    let mut r: Vec<UnitRestoreAction> = Vec::new();
    let mut i: usize = 0;
    while i < units.len()
        invariant
            i <= units@.len(),
            r@.len() == i,
            forall|j: int|
                0 <= j < i ==> #[trigger] r@[j] == restore_action_of(j as u64, units@[j].0, units@[j].1),
        decreases units.len() - i,
    {
        let (in_cache, fresh) = units[i];
        let index = i as u64;
        let action = if !in_cache {
            UnitRestoreAction::Missing { touch: fresh }
        } else if fresh {
            UnitRestoreAction::KeepLocal { mtime_secs: index }
        } else {
            UnitRestoreAction::Restore { mtime_secs: index }
        };
        r.push(action);
        i = i + 1;
    }
    r
}

/// The kind of a unit.
#[derive(Copy, Clone, PartialEq, Eq, Structural, Debug)]
pub enum UnitKind {
    LibraryCrate,
    BuildScriptCompilation,
    BuildScriptExecution,
}

/// A unit of the plan to restore: its hash, its kind, and whether it is
/// already fresh locally (its fingerprint file exists).
#[derive(Clone, Debug)]
pub struct PlannedUnit {
    pub unit_hash: String,
    pub kind: UnitKind,
    pub fresh: bool,
}

/// A unit that the cache has: its hash, its kind, and the content keys of the
/// files to restore for it, in order. The cache answers with at most one
/// entry per hash; where a list holds more, the first one counts.
#[derive(Clone, Debug)]
pub struct CachedUnit {
    pub unit_hash: String,
    pub kind: UnitKind,
    pub files: Vec<Blake3>,
}

/// What restoring a plan does: the action for each unit of the plan, the
/// content keys to fetch for each unit (none for a unit that is not
/// restored), and the hashes of the units that count as restored, each once.
#[derive(Clone, Debug)]
pub struct RestorePlan {
    pub actions: Vec<UnitRestoreAction>,
    pub files: Vec<Vec<Blake3>>,
    pub restored_units: Vec<String>,
}

/// Why a restore plan cannot be made.
#[derive(Clone, Debug, PartialEq, Eq)]
pub enum RestorePlanError {
    /// The cache has the unit at this position of the plan with another kind
    /// than the plan's.
    KindMismatch { index: usize },
}

/// The position of the first entry of `cached` for the unit hash `h`.
pub open spec fn cached_index(cached: Seq<CachedUnit>, h: Seq<char>) -> Option<int> {
    if exists|k: int| 0 <= k < cached.len() && #[trigger] cached[k].unit_hash@ == h {
        Some(
            choose|k: int|
                0 <= k < cached.len() && #[trigger] cached[k].unit_hash@ == h && forall|m: int|
                    0 <= m < k ==> #[trigger] cached[m].unit_hash@ != h,
        )
    } else {
        None
    }
}

/// Whether the unit at position `i` of the plan gets the cache's entry: the
/// cache has its hash and no earlier unit of the plan has the same hash (the
/// first one takes the entry).
pub open spec fn served(plan: Seq<PlannedUnit>, cached: Seq<CachedUnit>, i: int) -> bool {
    &&& cached_index(cached, plan[i].unit_hash@) is Some
    &&& forall|j: int| 0 <= j < i ==> #[trigger] plan[j].unit_hash@ != plan[i].unit_hash@
}

/// Whether the unit at position `i` is restored from the cache: it is served
/// and not fresh locally.
pub open spec fn restored_from_cache(plan: Seq<PlannedUnit>, cached: Seq<CachedUnit>, i: int) -> bool {
    served(plan, cached, i) && !plan[i].fresh
}

/// Whether the unit at position `i` is restored from a cache entry of
/// another kind.
pub open spec fn kind_mismatch(plan: Seq<PlannedUnit>, cached: Seq<CachedUnit>, i: int) -> bool {
    &&& restored_from_cache(plan, cached, i)
    &&& cached[cached_index(cached, plan[i].unit_hash@)->0].kind != plan[i].kind
}

/// Whether the unit hash `h` counts as restored among the first `n` units
/// of the plan: one of them with that hash is fresh locally or restored from
/// the cache.
pub open spec fn counts_restored_before(
    plan: Seq<PlannedUnit>,
    cached: Seq<CachedUnit>,
    h: Seq<char>,
    n: int,
) -> bool {
    exists|i: int|
        0 <= i < n && plan[i].unit_hash@ == h && (plan[i].fresh || #[trigger] restored_from_cache(
            plan,
            cached,
            i,
        ))
}

/// Whether the unit hash `h` counts as restored: some unit of the plan with
/// that hash is fresh locally or restored from the cache.
pub open spec fn counts_restored(plan: Seq<PlannedUnit>, cached: Seq<CachedUnit>, h: Seq<char>) -> bool {
    counts_restored_before(plan, cached, h, plan.len() as int)
}

proof fn lemma_counts_restored_step(plan: Seq<PlannedUnit>, cached: Seq<CachedUnit>, h: Seq<char>, n: int)
    requires
        0 <= n < plan.len(),
    ensures
        counts_restored_before(plan, cached, h, n + 1) == (counts_restored_before(plan, cached, h, n) || (
        plan[n].unit_hash@ == h && (plan[n].fresh || restored_from_cache(plan, cached, n)))),
{
    let here = plan[n].unit_hash@ == h && (plan[n].fresh || restored_from_cache(plan, cached, n));
    if counts_restored_before(plan, cached, h, n + 1) {
        let i = choose|i: int|
            0 <= i < n + 1 && plan[i].unit_hash@ == h && (plan[i].fresh || #[trigger] restored_from_cache(
                plan,
                cached,
                i,
            ));
        if i < n {
            assert(0 <= i < n && plan[i].unit_hash@ == h && (plan[i].fresh || restored_from_cache(
                plan,
                cached,
                i,
            )));
            assert(counts_restored_before(plan, cached, h, n));
        } else {
            assert(here);
        }
    }
    if counts_restored_before(plan, cached, h, n) {
        let i = choose|i: int|
            0 <= i < n && plan[i].unit_hash@ == h && (plan[i].fresh || #[trigger] restored_from_cache(
                plan,
                cached,
                i,
            ));
        assert(0 <= i < n + 1 && plan[i].unit_hash@ == h && (plan[i].fresh || restored_from_cache(
            plan,
            cached,
            i,
        )));
        assert(counts_restored_before(plan, cached, h, n + 1));
    }
    if here {
        assert(0 <= n < n + 1 && plan[n].unit_hash@ == h && (plan[n].fresh || restored_from_cache(
            plan,
            cached,
            n,
        )));
        assert(counts_restored_before(plan, cached, h, n + 1));
    }
}

/// Some entry of `cached` has the hash `h`, so a first one does.
proof fn lemma_first_cached(cached: Seq<CachedUnit>, h: Seq<char>, k0: int)
    requires
        0 <= k0 < cached.len(),
        cached[k0].unit_hash@ == h,
    ensures
        exists|k: int|
            0 <= k < cached.len() && #[trigger] cached[k].unit_hash@ == h && forall|m: int|
                0 <= m < k ==> #[trigger] cached[m].unit_hash@ != h,
    decreases k0,
{
    if exists|m: int| 0 <= m < k0 && #[trigger] cached[m].unit_hash@ == h {
        let m = choose|m: int| 0 <= m < k0 && #[trigger] cached[m].unit_hash@ == h;
        lemma_first_cached(cached, h, m);
    } else {
        assert(forall|m: int| 0 <= m < k0 ==> #[trigger] cached[m].unit_hash@ != h);
    }
}

/// The first entry of `cached` for `h` is an entry for `h` with none before
/// it.
proof fn lemma_cached_index(cached: Seq<CachedUnit>, h: Seq<char>)
    ensures
        cached_index(cached, h) matches Some(k) ==> {
            &&& 0 <= k < cached.len()
            &&& cached[k].unit_hash@ == h
            &&& forall|m: int| 0 <= m < k ==> #[trigger] cached[m].unit_hash@ != h
        },
{
    if exists|k: int| 0 <= k < cached.len() && #[trigger] cached[k].unit_hash@ == h {
        let k0 = choose|k: int| 0 <= k < cached.len() && #[trigger] cached[k].unit_hash@ == h;
        lemma_first_cached(cached, h, k0);
    }
}

/// Some unit of the plan has the hash `h`, so a first one does.
proof fn lemma_first_planned(plan: Seq<PlannedUnit>, h: Seq<char>, i0: int)
    requires
        0 <= i0 < plan.len(),
        plan[i0].unit_hash@ == h,
    ensures
        exists|i: int|
            0 <= i < plan.len() && #[trigger] plan[i].unit_hash@ == h && forall|j: int|
                0 <= j < i ==> #[trigger] plan[j].unit_hash@ != h,
    decreases i0,
{
    if exists|j: int| 0 <= j < i0 && #[trigger] plan[j].unit_hash@ == h {
        let j = choose|j: int| 0 <= j < i0 && #[trigger] plan[j].unit_hash@ == h;
        lemma_first_planned(plan, h, j);
    } else {
        assert(forall|j: int| 0 <= j < i0 ==> #[trigger] plan[j].unit_hash@ != h);
    }
}

/// The units that count as restored are exactly those fresh locally and
/// those that the cache has: a unit hash counts as restored if and only if
/// some unit of the plan with that hash is fresh, or the cache has it.
pub proof fn lemma_restored_units(plan: Seq<PlannedUnit>, cached: Seq<CachedUnit>, h: Seq<char>)
    ensures
        counts_restored(plan, cached, h) <==> (exists|i: int|
            0 <= i < plan.len() && #[trigger] plan[i].unit_hash@ == h && (plan[i].fresh || cached_index(
                cached,
                h,
            ) is Some)),
{
    if counts_restored(plan, cached, h) {
        let i = choose|i: int|
            0 <= i < plan.len() && plan[i].unit_hash@ == h && (plan[i].fresh || #[trigger] restored_from_cache(
                plan,
                cached,
                i,
            ));
        assert(plan[i].unit_hash@ == h);
        assert(0 <= i < plan.len() && plan[i].unit_hash@ == h && (plan[i].fresh || cached_index(cached, h) is Some));
    }
    if exists|i: int|
        0 <= i < plan.len() && #[trigger] plan[i].unit_hash@ == h && (plan[i].fresh || cached_index(
            cached,
            h,
        ) is Some) {
        let i = choose|i: int|
            0 <= i < plan.len() && #[trigger] plan[i].unit_hash@ == h && (plan[i].fresh || cached_index(
                cached,
                h,
            ) is Some);
        if plan[i].fresh {
            let rfc = restored_from_cache(plan, cached, i);
            assert(0 <= i < plan.len() && plan[i].unit_hash@ == h && (plan[i].fresh || rfc));
            assert(counts_restored_before(plan, cached, h, plan.len() as int)) by {
                assert(0 <= i < plan.len() && plan[i].unit_hash@ == h && (plan[i].fresh || restored_from_cache(
                    plan,
                    cached,
                    i,
                )));
            }
        } else {
            lemma_first_planned(plan, h, i);
            let f = choose|f: int|
                0 <= f < plan.len() && #[trigger] plan[f].unit_hash@ == h && forall|j: int|
                    0 <= j < f ==> #[trigger] plan[j].unit_hash@ != h;
            assert(served(plan, cached, f));
            assert(0 <= f < plan.len() && plan[f].unit_hash@ == h && (plan[f].fresh || restored_from_cache(
                plan,
                cached,
                f,
            )));
            assert(counts_restored_before(plan, cached, h, plan.len() as int));
        }
    }
}

/// The position of the first entry of `cached` for `h`, if any.
fn find_cached(cached: &[CachedUnit], h: &str) -> (r: Option<usize>)
    ensures
        r matches Some(k) ==> k < cached@.len(),
        match r {
            Some(k) => cached_index(cached@, h@) == Some(k as int),
            None => cached_index(cached@, h@) is None,
        },
{
    let hc = chars_of(h);
    let mut k: usize = 0;
    while k < cached.len()
        invariant
            hc@ == h@,
            k <= cached@.len(),
            forall|m: int| 0 <= m < k ==> #[trigger] cached@[m].unit_hash@ != h@,
        decreases cached.len() - k,
    {
        let xc = chars_of(cached[k].unit_hash.as_str());
        if chars_eq(xc.as_slice(), hc.as_slice()) {
            proof {
                lemma_first_cached(cached@, h@, k as int);
                let c = choose|m: int|
                    0 <= m < cached@.len() && #[trigger] cached@[m].unit_hash@ == h@ && forall|n: int|
                        0 <= n < m ==> #[trigger] cached@[n].unit_hash@ != h@;
                if c < k {
                } else if c > k {
                    assert(cached@[k as int].unit_hash@ == h@);
                }
            }
            return Some(k);
        }
        k = k + 1;
    }
    None
}

/// Whether a unit before position `i` of the plan has the same hash as the
/// unit at `i`.
fn seen_before(plan: &[PlannedUnit], i: usize) -> (r: bool)
    requires
        i < plan@.len(),
    ensures
        r == exists|j: int| 0 <= j < i && #[trigger] plan@[j].unit_hash@ == plan@[i as int].unit_hash@,
{
    let hc = chars_of(plan[i].unit_hash.as_str());
    let mut j: usize = 0;
    while j < i
        invariant
            i < plan@.len(),
            hc@ == plan@[i as int].unit_hash@,
            j <= i,
            forall|m: int| 0 <= m < j ==> #[trigger] plan@[m].unit_hash@ != plan@[i as int].unit_hash@,
        decreases i - j,
    {
        let xc = chars_of(plan[j].unit_hash.as_str());
        if chars_eq(xc.as_slice(), hc.as_slice()) {
            return true;
        }
        j = j + 1;
    }
    false
}

/// Plans the restoring of `plan` from the cache's answer `cached`.
///
/// A unit is served by the cache when the cache has its hash (only the first
/// unit of the plan with a hash takes the entry). The action of each unit is
/// that of [`restore_action_of`], with its position as its time; the files
/// of a unit restored from the cache are the keys of its entry. The restored
/// units are those fresh locally and those restored from the cache. The plan
/// fails, at the first such unit, when a unit restored from the cache has an
/// entry of another kind.
pub fn plan_restore(plan: &[PlannedUnit], cached: &[CachedUnit]) -> (r: Result<RestorePlan, RestorePlanError>)
    requires
        plan@.len() <= u64::MAX,
    ensures
        r is Err <==> exists|i: int| 0 <= i < plan@.len() && #[trigger] kind_mismatch(plan@, cached@, i),
        r matches Err(RestorePlanError::KindMismatch { index }) ==> {
            &&& index < plan@.len()
            &&& kind_mismatch(plan@, cached@, index as int)
            &&& forall|j: int| 0 <= j < index ==> !#[trigger] kind_mismatch(plan@, cached@, j)
        },
        r matches Ok(p) ==> {
            &&& p.actions@.len() == plan@.len()
            &&& p.files@.len() == plan@.len()
            &&& forall|i: int|
                0 <= i < plan@.len() ==> #[trigger] p.actions@[i] == restore_action_of(
                    i as u64,
                    served(plan@, cached@, i),
                    plan@[i].fresh,
                )
            &&& forall|i: int|
                #![trigger p.files@[i]]
                0 <= i < plan@.len() ==> keys_view(p.files@[i]@) == if restored_from_cache(
                    plan@,
                    cached@,
                    i,
                ) {
                    keys_view(cached@[cached_index(cached@, plan@[i].unit_hash@)->0].files@)
                } else {
                    seq![]
                }
            &&& forall|h: Seq<char>|
                #[trigger] strings_view(p.restored_units@).contains(h) <==> counts_restored(
                    plan@,
                    cached@,
                    h,
                )
            &&& strings_view(p.restored_units@).no_duplicates()
        },
{
    let mut actions: Vec<UnitRestoreAction> = Vec::new();
    let mut files: Vec<Vec<Blake3>> = Vec::new();
    let mut restored: Vec<String> = Vec::new();
    let mut i: usize = 0;
    while i < plan.len()
        invariant
            plan@.len() <= u64::MAX,
            i <= plan@.len(),
            actions@.len() == i,
            files@.len() == i,
            forall|j: int| 0 <= j < i ==> !#[trigger] kind_mismatch(plan@, cached@, j),
            forall|j: int|
                0 <= j < i ==> #[trigger] actions@[j] == restore_action_of(
                    j as u64,
                    served(plan@, cached@, j),
                    plan@[j].fresh,
                ),
            forall|j: int|
                #![trigger files@[j]]
                0 <= j < i ==> keys_view(files@[j]@) == if restored_from_cache(plan@, cached@, j) {
                    keys_view(cached@[cached_index(cached@, plan@[j].unit_hash@)->0].files@)
                } else {
                    seq![]
                },
            forall|h: Seq<char>|
                #[trigger] strings_view(restored@).contains(h) <==> counts_restored_before(
                    plan@,
                    cached@,
                    h,
                    i as int,
                ),
            strings_view(restored@).no_duplicates(),
        decreases plan.len() - i,
    {
        let unit = &plan[i];
        let found = find_cached(cached, unit.unit_hash.as_str());
        let earlier = seen_before(plan, i);
        let is_served = found.is_some() && !earlier;
        proof {
            assert(is_served == served(plan@, cached@, i as int));
        }
        let index = i as u64;
        let action = if !is_served {
            UnitRestoreAction::Missing { touch: unit.fresh }
        } else if unit.fresh {
            UnitRestoreAction::KeepLocal { mtime_secs: index }
        } else {
            UnitRestoreAction::Restore { mtime_secs: index }
        };
        let mut keys: Vec<Blake3> = Vec::new();
        if is_served && !unit.fresh {
            let k = found.unwrap();
            if cached[k].kind != unit.kind {
                proof {
                    assert(kind_mismatch(plan@, cached@, i as int));
                }
                return Err(RestorePlanError::KindMismatch { index: i });
            }
            let entry = &cached[k];
            let mut m: usize = 0;
            while m < entry.files.len()
                invariant
                    m <= entry.files@.len(),
                    keys@.len() == m,
                    forall|n: int| 0 <= n < m ==> #[trigger] keys@[n] == entry.files@[n],
                decreases entry.files.len() - m,
            {
                keys.push(entry.files[m]);
                m = m + 1;
            }
            assert(keys@ =~= entry.files@);
        }
        proof {
            assert(!kind_mismatch(plan@, cached@, i as int));
            assert(keys_view(keys@) =~= if restored_from_cache(plan@, cached@, i as int) {
                keys_view(cached@[cached_index(cached@, plan@[i as int].unit_hash@)->0].files@)
            } else {
                seq![]
            });
        }
        let ghost before = strings_view(restored@);
        if (unit.fresh || (is_served && !unit.fresh)) && !contains_text(
            restored.as_slice(),
            unit.unit_hash.as_str(),
        ) {
            restored.push(unit.unit_hash.clone());
            proof {
                assert(strings_view(restored@) =~= before.push(unit.unit_hash@));
            }
        }
        proof {
            let now = strings_view(restored@);
            let hi = plan@[i as int].unit_hash@;
            assert forall|h: Seq<char>|
                #[trigger] now.contains(h) <==> counts_restored_before(plan@, cached@, h, i + 1) by {
                lemma_counts_restored_step(plan@, cached@, h, i as int);
                if before.contains(h) {
                    let k = choose|k: int| 0 <= k < before.len() && before[k] == h;
                    assert(now[k] == h);
                }
                if now.contains(h) && !before.contains(h) {
                    assert(now =~= before.push(hi));
                    let k = choose|k: int| 0 <= k < now.len() && now[k] == h;
                    assert(k == before.len());
                }
                if h == hi && (plan@[i as int].fresh || restored_from_cache(plan@, cached@, i as int))
                    && !before.contains(h) {
                    assert(now =~= before.push(hi));
                    assert(now[before.len() as int] == h);
                }
            }
        }
        actions.push(action);
        files.push(keys);
        i = i + 1;
    }
    Ok(RestorePlan { actions, files, restored_units: restored })
}

/// Whether a key differs from `k`.
pub open spec fn other_key(k: Seq<u8>) -> spec_fn(Seq<u8>) -> bool {
    |x: Seq<u8>| x != k
}

/// `keys` without any occurrence of `k`.
pub open spec fn without_key(keys: Seq<Seq<u8>>, k: Seq<u8>) -> Seq<Seq<u8>> {
    keys.filter(other_key(k))
}

/// The content keys that a unit being restored still waits for.
#[derive(Clone, Debug)]
pub struct PendingKeys {
    pub unit_hash: String,
    pub keys: Vec<Blake3>,
}

/// The views of a list of keys.
pub open spec fn keys_view(keys: Seq<Blake3>) -> Seq<Seq<u8>> {
    keys.map_values(|k: Blake3| k@)
}

impl PendingKeys {
    /// The keys that the unit with hash `unit_hash` waits for: each key of
    /// `keys` once.
    pub fn new(unit_hash: String, keys: &[Blake3]) -> (r: PendingKeys)
        ensures
            r.unit_hash@ == unit_hash@,
            keys_view(r.keys@).no_duplicates(),
            forall|x: Seq<u8>| #[trigger] keys_view(r.keys@).contains(x) <==> keys_view(keys@).contains(x),
    {
        let mut out: Vec<Blake3> = Vec::new();
        let mut i: usize = 0;
        while i < keys.len()
            invariant
                i <= keys@.len(),
                keys_view(out@).no_duplicates(),
                forall|x: Seq<u8>| #[trigger] keys_view(out@).contains(x) <==> keys_view(keys@.take(i as int)).contains(x),
            decreases keys.len() - i,
        {
            let k = keys[i];
            let ghost before = keys_view(out@);
            proof {
                assert(keys_view(keys@.take(i + 1)) =~= keys_view(keys@.take(i as int)).push(k@));
            }
            let fresh = !contains_key(out.as_slice(), &k);
            if fresh {
                out.push(k);
                assert(keys_view(out@) =~= before.push(k@));
                assert forall|a: int, b: int|
                    0 <= a < before.push(k@).len() && 0 <= b < before.push(k@).len() && a != b implies before.push(
                    k@,
                )[a] != before.push(k@)[b] by {
                    if a < before.len() && b < before.len() {
                    } else if a < before.len() {
                        assert(before.contains(before[a]));
                    } else if b < before.len() {
                        assert(before.contains(before[b]));
                    }
                }
            }
            proof {
                let now = keys_view(out@);
                let prev = keys_view(keys@.take(i as int));
                assert forall|x: Seq<u8>| #[trigger] now.contains(x) <==> prev.push(k@).contains(x) by {
                    assert(before.contains(x) == prev.contains(x));
                    if prev.contains(x) {
                        let m = choose|m: int| 0 <= m < prev.len() && prev[m] == x;
                        assert(prev.push(k@)[m] == x);
                    }
                    assert(prev.push(k@)[prev.len() as int] == k@);
                    if prev.push(k@).contains(x) && x != k@ {
                        let j = choose|j: int| 0 <= j < prev.push(k@).len() && prev.push(k@)[j] == x;
                        assert(prev[j] == x);
                    }
                    if fresh {
                        assert(now =~= before.push(k@));
                        assert(now[before.len() as int] == k@);
                        if before.contains(x) {
                            let j = choose|j: int| 0 <= j < before.len() && before[j] == x;
                            assert(now[j] == x);
                        }
                        if now.contains(x) && x != k@ {
                            let j = choose|j: int| 0 <= j < now.len() && now[j] == x;
                            assert(before[j] == x);
                        }
                    } else {
                        assert(now == before);
                    }
                }
            }
            i = i + 1;
        }
        assert(keys@.take(keys@.len() as int) =~= keys@);
        PendingKeys { unit_hash, keys: out }
    }

    /// Records that the content with key `key` was restored: the key is no
    /// longer pending. Returns whether no key is pending any more, that is,
    /// whether the unit is fully restored.
    pub fn key_restored(&mut self, key: &Blake3) -> (done: bool)
        ensures
            keys_view(final(self).keys@) == without_key(keys_view(old(self).keys@), key@),
            final(self).unit_hash@ == old(self).unit_hash@,
            done == (final(self).keys@.len() == 0),
            keys_view(old(self).keys@).no_duplicates() ==> keys_view(final(self).keys@).no_duplicates(),
    {
        let ghost before = keys_view(self.keys@);
        let mut kept: Vec<Blake3> = Vec::new();
        let mut i: usize = 0;
        while i < self.keys.len()
            invariant
                before == keys_view(self.keys@),
                i <= self.keys@.len(),
                keys_view(kept@) == without_key(before.take(i as int), key@),
            decreases self.keys.len() - i,
        {
            let k = self.keys[i];
            let one: [Blake3; 1] = [*key];
            let same = contains_key(&one, &k);
            proof {
                assert(one@.map_values(|x: Blake3| x@) =~= seq![key@]);
                assert(seq![key@].contains(k@) <==> k@ == key@) by {
                    if k@ == key@ {
                        assert(seq![key@][0] == k@);
                    }
                }
                assert(same == (k@ == key@));
                assert(other_key(key@)(k@) == (k@ != key@));
                assert(before.take(i + 1).drop_last() =~= before.take(i as int));
                assert(before.take(i + 1).last() == k@);
                before.take(i as int).lemma_filter_push(k@, other_key(key@));
                assert(before.take(i as int).push(k@) =~= before.take(i + 1));
            }
            let ghost kept_before = kept@;
            if !same {
                kept.push(k);
                assert(keys_view(kept@) =~= keys_view(kept_before).push(k@));
            }
            assert(keys_view(kept@) == without_key(before.take(i + 1), key@));
            i = i + 1;
        }
        assert(before.take(before.len() as int) =~= before);
        proof {
            if before.no_duplicates() {
                lemma_filter_no_duplicates(before, other_key(key@));
            }
        }
        self.keys = kept;
        self.keys.len() == 0
    }
}

/// Keeping some items of a list that holds each item once gives a list that
/// holds each item once.
proof fn lemma_filter_no_duplicates(s: Seq<Seq<u8>>, p: spec_fn(Seq<u8>) -> bool)
    requires
        s.no_duplicates(),
    ensures
        s.filter(p).no_duplicates(),
    decreases s.len(),
{
    reveal(Seq::filter);
    if s.len() > 0 {
        let init = s.drop_last();
        assert(init.no_duplicates()) by {
            assert forall|i: int, j: int| 0 <= i < init.len() && 0 <= j < init.len() && i != j implies init[i]
                != init[j] by {
                assert(init[i] == s[i] && init[j] == s[j]);
            }
        }
        lemma_filter_no_duplicates(init, p);
        if p(s.last()) {
            let f = init.filter(p);
            assert(!f.contains(s.last())) by {
                if f.contains(s.last()) {
                    init.lemma_filter_contains_rev(p, s.last());
                    let k = choose|k: int| 0 <= k < init.len() && init[k] == s.last();
                    assert(s[k] == s[s.len() - 1]);
                }
            }
            assert(s.filter(p) =~= f.push(s.last()));
            assert forall|i: int, j: int|
                0 <= i < f.push(s.last()).len() && 0 <= j < f.push(s.last()).len() && i != j implies f.push(
                s.last(),
            )[i] != f.push(s.last())[j] by {
                if i < f.len() && j < f.len() {
                } else if i < f.len() {
                    assert(f.contains(f[i]));
                } else if j < f.len() {
                    assert(f.contains(f[j]));
                }
            }
        } else {
            assert(s.filter(p) =~= init.filter(p));
        }
    }
}

/// Restoring a key never adds a pending key, and a key that was restored is
/// no longer pending.
pub proof fn lemma_key_restored(keys: Seq<Seq<u8>>, k: Seq<u8>)
    ensures
        without_key(keys, k).len() <= keys.len(),
        !without_key(keys, k).contains(k),
        forall|x: Seq<u8>| #[trigger] without_key(keys, k).contains(x) ==> keys.contains(x),
{
    keys.lemma_filter_len(other_key(k));
    let w = without_key(keys, k);
    if w.contains(k) {
        let i = choose|i: int| 0 <= i < w.len() && w[i] == k;
        keys.lemma_filter_pred(other_key(k), i);
    }
    assert forall|x: Seq<u8>| #[trigger] w.contains(x) implies keys.contains(x) by {
        keys.lemma_filter_contains_rev(other_key(k), x);
    }
}

} // verus!
