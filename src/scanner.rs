//! Discovery of the files to compress under an input path.
use vstd::prelude::*;
use vstd::string::*;

use crate::asset::{AssetStatus, AssetView, CompressionError, VideoFile};
use crate::paths::{
    chars_of, compressed_name, extension, extension_of, has_extension, last_index_of,
    last_segment, lemma_last_index_of, name_start, parent_prefix, segment_chars, segment_start,
    stem_of,
};

verus! {

/// The code of `c` with ASCII upper-case letters folded to lower case.
pub open spec fn lower_code(c: char) -> u32 {
    if 65 <= c as u32 <= 90 {
        (c as u32 + 32) as u32
    } else {
        c as u32
    }
}

pub open spec fn same_ignoring_ascii_case(a: Seq<char>, b: Seq<char>) -> bool {
    a.len() == b.len() && forall|i: int| 0 <= i < a.len() ==> lower_code(a[i]) == lower_code(b[i])
}

/// The extension of `p` is one of the listed ones, ignoring ASCII case.
pub open spec fn in_white_list(white_list: Seq<Seq<char>>, p: Seq<char>) -> bool {
    has_extension(p) && exists|k: int|
        0 <= k < white_list.len() && same_ignoring_ascii_case(
            #[trigger] white_list[k],
            extension_of(p),
        )
}

pub open spec fn occurs_at(s: Seq<char>, m: Seq<char>, i: int) -> bool {
    0 <= i && i + m.len() <= s.len() && s.subrange(i, i + m.len()) == m
}

pub open spec fn occurs_in(s: Seq<char>, m: Seq<char>) -> bool {
    exists|i: int| occurs_at(s, m, i)
}

/// The word that marks the output of an earlier compression.
pub open spec fn marker() -> Seq<char> {
    "compressed"@
}

/// The file name of `p` carries the marker of a compressed output.
pub open spec fn marked_compressed(p: Seq<char>) -> bool {
    occurs_in(last_segment(p), marker())
}

/// The final segment of `p` starts with a dot.
pub open spec fn is_hidden(p: Seq<char>) -> bool {
    last_segment(p).len() > 0 && last_segment(p)[0] == '.'
}

/// A file worth compressing: listed extension, and not itself an output.
pub open spec fn is_candidate(white_list: Seq<Seq<char>>, p: Seq<char>) -> bool {
    in_white_list(white_list, p) && !marked_compressed(p)
}

/// An entry met while walking a directory that is kept.
pub open spec fn entry_selected(white_list: Seq<Seq<char>>, p: Seq<char>) -> bool {
    !is_hidden(p) && is_candidate(white_list, p)
}

pub open spec fn fresh_asset(p: Seq<char>) -> AssetView {
    AssetView { path: p, status: AssetStatus::Pending, size: None, duration: None, creation_time: None }
}

/// The entries of a directory walk that are kept, in the order met.
pub open spec fn selected_entries(white_list: Seq<Seq<char>>, entries: Seq<Seq<char>>) -> Seq<
    Seq<char>,
> {
    entries.filter(|p: Seq<char>| entry_selected(white_list, p))
}

pub open spec fn assets_of(ps: Seq<Seq<char>>) -> Seq<AssetView> {
    ps.map_values(|p: Seq<char>| fresh_asset(p))
}

pub open spec fn views_of(v: Seq<VideoFile>) -> Seq<AssetView> {
    v.map_values(|a: VideoFile| a@)
}

pub open spec fn strings_view(v: Seq<String>) -> Seq<Seq<char>> {
    v.map_values(|s: String| s@)
}

/// A directory scan keeps exactly the entries that are not hidden, carry a
/// listed extension and do not bear the compressed marker.
pub proof fn lemma_scan_selects_exactly(
    white_list: Seq<Seq<char>>,
    entries: Seq<Seq<char>>,
    p: Seq<char>,
)
    ensures
        selected_entries(white_list, entries).contains(p) <==> (entries.contains(p) && !is_hidden(p)
            && in_white_list(white_list, p) && !marked_compressed(p)),
{
    let pred = |q: Seq<char>| entry_selected(white_list, q);
    let kept = entries.filter(pred);
    if kept.contains(p) {
        entries.lemma_filter_contains_rev(pred, p);
        let i = choose|i: int| 0 <= i < kept.len() && kept[i] == p;
        entries.lemma_filter_pred(pred, i);
    }
    if entries.contains(p) && entry_selected(white_list, p) {
        let i = choose|i: int| 0 <= i < entries.len() && entries[i] == p;
        entries.lemma_filter_contains(pred, i);
    }
}

/// A walk that meets each entry once yields each kept path once.
pub proof fn lemma_scan_no_duplicates(white_list: Seq<Seq<char>>, entries: Seq<Seq<char>>)
    requires
        entries.no_duplicates(),
    ensures
        selected_entries(white_list, entries).no_duplicates(),
    decreases entries.len(),
{
    let pred = |q: Seq<char>| entry_selected(white_list, q);
    if entries.len() > 0 {
        let init = entries.drop_last();
        let x = entries.last();
        assert(init.no_duplicates()) by {
            assert forall|i: int, j: int| 0 <= i < init.len() && 0 <= j < init.len() && i != j
                implies init[i] != init[j] by {
                assert(init[i] == entries[i] && init[j] == entries[j]);
            }
        }
        lemma_scan_no_duplicates(white_list, init);
        assert(init.push(x) =~= entries);
        init.lemma_filter_push(x, pred);
        if pred(x) {
            let kept = init.filter(pred);
            if kept.contains(x) {
                init.lemma_filter_contains_rev(pred, x);
                let k = choose|k: int| 0 <= k < init.len() && init[k] == x;
                assert(entries[k] == entries[entries.len() - 1]);
            }
            assert forall|i: int, j: int| 0 <= i < kept.push(x).len() && 0 <= j < kept.push(x).len()
                && i != j implies kept.push(x)[i] != kept.push(x)[j] by {
                if i < kept.len() && j < kept.len() {
                } else if i < kept.len() {
                    assert(kept.contains(kept[i]));
                } else {
                    assert(kept.contains(kept[j]));
                }
            }
        }
    }
}

proof fn lemma_last_index_append(a: Seq<char>, b: Seq<char>, c: char)
    requires
        forall|j: int| 0 <= j < b.len() ==> b[j] != c,
    ensures
        last_index_of(a + b, c) == last_index_of(a, c),
    decreases b.len(),
{
    if b.len() > 0 {
        assert((a + b).drop_last() =~= a + b.drop_last());
        lemma_last_index_append(a, b.drop_last(), c);
    } else {
        assert(a + b =~= a);
    }
}

/// The compressed counterpart of a file is a different path, and its name
/// bears the marker, so a later scan never takes it for a new candidate.
pub proof fn lemma_counterpart_is_marked(p: Seq<char>)
    requires
        has_extension(p),
    ensures
        compressed_name(p) != p,
        marked_compressed(compressed_name(p)),
{
    let n = last_segment(p);
    let d = last_index_of(n, '.');
    let prefix = parent_prefix(p);
    let rest = stem_of(p) + " compressed."@ + extension_of(p);
    lemma_last_index_of(p, '/');
    lemma_last_index_of(n, '.');
    reveal_strlit(" compressed.");
    reveal_strlit("compressed");
    assert(compressed_name(p) =~= prefix + rest);
    assert forall|j: int| 0 <= j < rest.len() implies rest[j] != '/' by {
        if j < d {
            assert(rest[j] == n[j]);
            assert(n[j] == p[name_start(p) + j]);
        } else if j < d + 12 {
            assert(rest[j] == " compressed."@[j - d]);
        } else {
            assert(rest[j] == n[j - 11]);
            assert(n[j - 11] == p[name_start(p) + j - 11]);
        }
    }
    lemma_last_index_append(prefix, rest, '/');
    if prefix.len() > 0 {
        assert(prefix.drop_last() + seq![prefix.last()] =~= prefix);
        assert(prefix.last() == '/');
    } else {
        assert(last_index_of(prefix, '/') == -1);
    }
    assert(last_index_of(prefix, '/') == prefix.len() - 1);
    assert(last_segment(compressed_name(p)) =~= rest);
    assert(rest.subrange(d + 1, d + 11) =~= "compressed"@);
    assert(occurs_at(rest, marker(), d + 1));
    assert(compressed_name(p).len() == p.len() + 11);
}

/// Whether `a` and `b` agree up to ASCII case.
fn eq_ignoring_ascii_case(a: &Vec<char>, b: &Vec<char>) -> (r: bool)
    ensures
        r == same_ignoring_ascii_case(a@, b@),
{
    if a.len() != b.len() {
        return false;
    }
    let mut i: usize = 0;
    while i < a.len()
        invariant
            a.len() == b.len(),
            i <= a.len(),
            forall|j: int| 0 <= j < i ==> lower_code(a@[j]) == lower_code(b@[j]),
        decreases a.len() - i,
    {
        let x: u32 = a[i] as u32;
        let y: u32 = b[i] as u32;
        let lx: u32 = if 65 <= x && x <= 90 { x + 32 } else { x };
        let ly: u32 = if 65 <= y && y <= 90 { y + 32 } else { y };
        if lx != ly {
            return false;
        }
        i = i + 1;
    }
    true
}

/// Whether `m` occurs in `s` at position `i`.
fn occurs_here(s: &Vec<char>, m: &Vec<char>, i: usize) -> (r: bool)
    requires
        i + m.len() <= s.len(),
    ensures
        r == occurs_at(s@, m@, i as int),
{
    let mut k: usize = 0;
    while k < m.len()
        invariant
            i + m.len() <= s.len(),
            k <= m.len(),
            forall|j: int| 0 <= j < k ==> s@[i + j] == m@[j],
        decreases m.len() - k,
    {
        if s[i + k] != m[k] {
            assert(s@.subrange(i as int, i + m.len())[k as int] != m@[k as int]);
            return false;
        }
        k = k + 1;
    }
    assert(s@.subrange(i as int, i + m.len()) =~= m@);
    true
}

/// Whether `m` occurs anywhere in `s`.
pub fn occurs(s: &Vec<char>, m: &Vec<char>) -> (r: bool)
    ensures
        r == occurs_in(s@, m@),
{
    if m.len() > s.len() {
        return false;
    }
    if m.len() == 0 {
        assert(s@.subrange(0, 0) =~= m@);
        assert(occurs_at(s@, m@, 0));
        return true;
    }
    let last: usize = s.len() - m.len();
    let mut i: usize = 0;
    while i <= last
        invariant
            last + m.len() == s.len(),
            m.len() > 0,
            i <= last + 1,
            forall|j: int| 0 <= j < i ==> !occurs_at(s@, m@, j),
        decreases last + 1 - i,
    {
        if occurs_here(s, m, i) {
            return true;
        }
        i = i + 1;
    }
    assert forall|j: int| !occurs_at(s@, m@, j) by {
        if 0 <= j && j + m.len() <= s.len() {
            assert(j <= last);
        }
    }
    false
}

/// What the filesystem showed at the input path.
pub enum Listing {
    /// Nothing exists there.
    Missing,
    /// A single file.
    File,
    /// A directory: the paths of every entry a recursive walk met, in order,
    /// the directory itself included.
    Directory(Vec<String>),
    /// Something that is neither a file nor a directory.
    Other,
}

/// The paths that a scan keeps, in order.
pub open spec fn found_paths(white_list: Seq<Seq<char>>, input: Seq<char>, listing: Listing) -> Seq<
    Seq<char>,
> {
    match listing {
        Listing::File => if is_candidate(white_list, input) {
            seq![input]
        } else {
            Seq::empty()
        },
        Listing::Directory(entries) => selected_entries(white_list, strings_view(entries@)),
        _ => Seq::empty(),
    }
}

pub struct ConfigView {
    pub input: Seq<char>,
    pub white_list: Seq<Seq<char>>,
}

/// The input path and the extensions to look for.
pub struct FileScannerConfig {
    input: String,
    white_list: Vec<String>,
}

impl View for FileScannerConfig {
    type V = ConfigView;

    closed spec fn view(&self) -> ConfigView {
        ConfigView { input: self.input@, white_list: strings_view(self.white_list@) }
    }
}

impl FileScannerConfig {
    pub fn new(input: String, white_list: Vec<String>) -> (r: FileScannerConfig)
        ensures
            r@ == (ConfigView { input: input@, white_list: strings_view(white_list@) }),
    {
        FileScannerConfig { input, white_list }
    }
}

pub struct ScannerView {
    pub config: ConfigView,
    pub assets: Seq<AssetView>,
}

/// Collects the assets found under the configured input.
pub struct FileScanner {
    config: FileScannerConfig,
    assets: Vec<VideoFile>,
}

impl View for FileScanner {
    type V = ScannerView;

    closed spec fn view(&self) -> ScannerView {
        ScannerView { config: self.config@, assets: views_of(self.assets@) }
    }
}

impl FileScanner {
    pub fn new(config: FileScannerConfig) -> (r: FileScanner)
        ensures
            r@ == (ScannerView { config: config@, assets: Seq::empty() }),
    {
        let r = FileScanner { config, assets: Vec::new() };
        assert(views_of(r.assets@) =~= Seq::empty());
        r
    }

    /// Whether the extension of `path` is in the white list, ignoring case.
    fn is_in_white_list(&self, path: &String) -> (r: bool)
        ensures
            r == in_white_list(self@.config.white_list, path@),
    {
        let ext = match extension(path.as_str()) {
            Some(e) => chars_of(e.as_str()),
            None => {
                return false;
            },
        };
        let ghost wl = self@.config.white_list;
        let mut k: usize = 0;
        while k < self.config.white_list.len()
            invariant
                wl == strings_view(self.config.white_list@),
                k <= self.config.white_list.len(),
                has_extension(path@),
                ext@ == extension_of(path@),
                forall|j: int| 0 <= j < k ==> !same_ignoring_ascii_case(#[trigger] wl[j], ext@),
            decreases self.config.white_list.len() - k,
        {
            let item = chars_of(self.config.white_list[k].as_str());
            if eq_ignoring_ascii_case(&item, &ext) {
                assert(wl[k as int] == item@);
                return true;
            }
            k = k + 1;
        }
        false
    }

    /// Whether the file name of `path` carries the compressed marker.
    fn is_compressed(&self, path: &String) -> (r: bool)
        ensures
            r == marked_compressed(path@),
    {
        let p = chars_of(path.as_str());
        let start = segment_start(&p);
        let name = segment_chars(&p, start);
        let m = chars_of("compressed");
        occurs(&name, &m)
    }

    /// Whether the final segment of `path` starts with a dot.
    fn is_hidden(&self, path: &String) -> (r: bool)
        ensures
            r == is_hidden(path@),
    {
        let p = chars_of(path.as_str());
        let start = segment_start(&p);
        start < p.len() && p[start] == '.'
    }

    /// Keeps `path` as a new pending asset when it is a candidate.
    fn add_asset(&mut self, path: String)
        ensures
            final(self)@.config == old(self)@.config,
            final(self)@.assets == if is_candidate(old(self)@.config.white_list, path@) {
                old(self)@.assets.push(fresh_asset(path@))
            } else {
                old(self)@.assets
            },
    {
        if !self.is_in_white_list(&path) {
            return;
        }
        if self.is_compressed(&path) {
            return;
        }
        let asset = VideoFile::new(path);
        self.assets.push(asset);
        assert(views_of(self.assets@) =~= views_of(old(self).assets@).push(asset@));
    }

    /// Copies of the assets collected so far.
    fn copy_assets(&self) -> (r: Vec<VideoFile>)
        ensures
            views_of(r@) == self@.assets,
    {
        let mut r: Vec<VideoFile> = Vec::new();
        let mut i: usize = 0;
        while i < self.assets.len()
            invariant
                i <= self.assets.len(),
                r.len() == i,
                views_of(r@) == views_of(self.assets@.subrange(0, i as int)),
            decreases self.assets.len() - i,
        {
            let a = self.assets[i].duplicate();
            let ghost av = a@;
            let ghost prev = r@;
            r.push(a);
            assert(r@[i as int]@ == av);
            assert(av == self.assets@[i as int]@);
            assert forall|j: int| 0 <= j < i + 1 implies views_of(r@)[j] == views_of(
                self.assets@.subrange(0, i + 1),
            )[j] by {
                if j < i {
                    assert(views_of(prev)[j] == views_of(self.assets@.subrange(0, i as int))[j]);
                    assert(r@[j] == prev[j]);
                } else {
                    assert(self.assets@.subrange(0, i + 1)[j] == self.assets@[j]);
                }
            }
            assert(views_of(r@) =~= views_of(self.assets@.subrange(0, i + 1)));
            i = i + 1;
        }
        assert(self.assets@.subrange(0, self.assets.len() as int) =~= self.assets@);
        r
    }

    /// Collects the assets that `listing`, what the filesystem showed at the
    /// configured input, holds: the input itself when it is a candidate file,
    /// or every non-hidden candidate that a walk of the directory met. Each
    /// scan starts afresh: what an earlier scan found is forgotten.
    pub fn scan(&mut self, listing: Listing) -> (r: Result<Vec<VideoFile>, CompressionError>)
        ensures
            final(self)@.config == old(self)@.config,
            final(self)@.assets == assets_of(
                found_paths(old(self)@.config.white_list, old(self)@.config.input, listing),
            ),
            match r {
                Ok(v) => !(listing is Missing) && views_of(v@) == final(self)@.assets
                    && final(self)@.assets.len() > 0,
                Err(e) => if listing is Missing {
                    e@ == crate::asset::ErrorView::NotFound("No such file or directory"@)
                } else {
                    final(self)@.assets.len() == 0 && e@
                        == crate::asset::ErrorView::NoAssetsFound("No valid videos were found"@)
                },
            },
    {
        self.assets = Vec::new();
        assert(views_of(self.assets@) =~= Seq::<AssetView>::empty());
        let ghost wl = self@.config.white_list;
        let ghost before = self@.assets;
        match listing {
            Listing::Missing => {
                assert(assets_of(Seq::<Seq<char>>::empty()) =~= Seq::<AssetView>::empty());
                return Err(CompressionError::NotFound(String::from_str("No such file or directory")));
            },
            Listing::File => {
                let input = self.config.input.clone();
                self.add_asset(input);
                assert(assets_of(seq![self.config.input@]) =~= seq![fresh_asset(self.config.input@)]);
                assert(assets_of(Seq::<Seq<char>>::empty()) =~= Seq::<AssetView>::empty());
                assert(before + seq![fresh_asset(self.config.input@)] =~= seq![fresh_asset(self.config.input@)]);
            },
            Listing::Directory(entries) => {
                let ghost ev = strings_view(entries@);
                let mut i: usize = 0;
                assert(ev.subrange(0, 0) =~= Seq::<Seq<char>>::empty());
                assert(assets_of(Seq::<Seq<char>>::empty()) =~= Seq::<AssetView>::empty());
                assert(before + Seq::<AssetView>::empty() =~= before);
                while i < entries.len()
                    invariant
                        i <= entries.len(),
                        ev == strings_view(entries@),
                        wl == self@.config.white_list,
                        self@.config == old(self)@.config,
                        self@.assets == before + assets_of(selected_entries(wl, ev.subrange(0, i as int))),
                    decreases entries.len() - i,
                {
                    let path = entries[i].clone();
                    let ghost pre = ev.subrange(0, i as int);
                    assert(ev.subrange(0, i + 1) =~= pre.push(path@));
                    proof {
                        pre.lemma_filter_push(path@, |p: Seq<char>| entry_selected(wl, p));
                    }
                    if !self.is_hidden(&path) {
                        self.add_asset(path);
                    }
                    assert(assets_of(selected_entries(wl, ev.subrange(0, i + 1))) =~= if entry_selected(wl, ev[i as int]) {
                        assets_of(selected_entries(wl, pre)).push(fresh_asset(ev[i as int]))
                    } else {
                        assets_of(selected_entries(wl, pre))
                    });
                    i = i + 1;
                }
                assert(ev.subrange(0, entries.len() as int) =~= ev);
                assert(before + assets_of(selected_entries(wl, ev)) =~= assets_of(selected_entries(wl, ev)));
            },
            Listing::Other => {
                assert(assets_of(Seq::<Seq<char>>::empty()) =~= Seq::<AssetView>::empty());
                assert(before + Seq::<AssetView>::empty() =~= before);
            },
        }
        if self.assets.len() == 0 {
            return Err(CompressionError::NoAssetsFound(String::from_str("No valid videos were found")));
        }
        Ok(self.copy_assets())
    }
}

} // verus!
