//! The library scanner's pure core: deciding which directory entries name
//! manifest files, turning manifest texts into game records, and completing a
//! record once the install directory has been looked for on disk. The caller
//! does the directory listing, the file reads and the existence test, and
//! hands the plain values in.

use vstd::prelude::*;
use crate::manifest::{parse_manifest, field_or_empty};
use crate::text::{seq_views, str_starts_with, str_ends_with};

verus! {

/// One discovered title, as handed to the frontend.
pub struct SteamGame {
    /// Numeric identifier of the title; never empty in a scanner's record.
    pub app_id: String,
    /// Display name; empty when the manifest carries none.
    pub name: String,
    /// Absolute path the title would be installed under.
    pub install_dir: String,
    /// Whether `install_dir` existed on disk when the scan looked.
    pub installed: bool,
}

/// A record scraped from one manifest, before the install directory has been
/// looked for on disk.
pub struct PendingGame {
    pub app_id: String,
    pub name: String,
    pub install_dir: String,
}

/// Ghost image of a pending record.
pub ghost struct PendingView {
    pub app_id: Seq<char>,
    pub name: Seq<char>,
    pub install_dir: Seq<char>,
}

impl View for PendingGame {
    type V = PendingView;

    open spec fn view(&self) -> PendingView {
        PendingView { app_id: self.app_id@, name: self.name@, install_dir: self.install_dir@ }
    }
}

/// The views of a sequence of pending records.
pub open spec fn pending_views(v: Seq<PendingGame>) -> Seq<PendingView> {
    v.map_values(|p: PendingGame| p@)
}

/// A directory entry names a manifest file when its name starts with
/// `appmanifest_` and ends with `.acf`.
pub open spec fn manifest_name(n: Seq<char>) -> bool {
    "appmanifest_"@.is_prefix_of(n) && ".acf"@.is_suffix_of(n)
}

/// Whether a directory entry's name is a manifest file's.
pub fn is_manifest_file_name(name: &str) -> (r: bool)
    ensures
        r == manifest_name(name@),
{
    str_starts_with(name, "appmanifest_") && str_ends_with(name, ".acf")
}

/// The entry names the scanner keeps, in directory order: exactly those that
/// name manifest files.
pub fn matching_names(names: &Vec<String>) -> (r: Vec<String>)
    ensures
        seq_views(r@) == seq_views(names@).filter(|n: Seq<char>| manifest_name(n)),
{
    let ghost nv = seq_views(names@);
    let ghost pred = |n: Seq<char>| manifest_name(n);
    let mut r: Vec<String> = Vec::new();
    proof {
        reveal(Seq::filter);
        assert(nv.take(0) =~= Seq::<Seq<char>>::empty());
    }
    let mut k: usize = 0;
    while k < names.len()
        invariant
            k <= names@.len(),
            nv == seq_views(names@),
            pred == (|n: Seq<char>| manifest_name(n)),
            seq_views(r@) == nv.take(k as int).filter(pred),
        decreases names@.len() - k,
    {
        let keep = is_manifest_file_name(names[k].as_str());
        proof {
            reveal(Seq::filter);
            assert(nv.take(k as int + 1).drop_last() =~= nv.take(k as int));
            assert(nv.take(k as int + 1).last() == names@[k as int]@);
        }
        if keep {
            let ghost old_r = r@;
            r.push(names[k].clone());
            proof {
                assert(seq_views(r@) =~= seq_views(old_r).push(names@[k as int]@));
            }
        }
        k = k + 1;
    }
    proof {
        assert(nv.take(names@.len() as int) =~= nv);
    }
    r
}

/// The absolute install directory of a game: the library root, the fixed
/// `steamapps/common` segment, and the game's subdirectory, joined by `/`.
pub open spec fn install_path_spec(root: Seq<char>, subdir: Seq<char>) -> Seq<char> {
    root + "/steamapps/common/"@ + subdir
}

/// Joins the library root and a game's subdirectory into its install path.
pub fn install_path(steam_root: &str, install_subdir: &str) -> (r: String)
    ensures
        r@ == install_path_spec(steam_root@, install_subdir@),
{
    String::from_str(steam_root).concat("/steamapps/common/").concat(install_subdir)
}

/// The record one manifest text yields: nothing without a non-empty `appid`.
pub open spec fn pending_of(content: Seq<char>, root: Seq<char>) -> Option<PendingView> {
    if field_or_empty(content, "appid"@).len() == 0 {
        None
    } else {
        Some(PendingView {
            app_id: field_or_empty(content, "appid"@),
            name: field_or_empty(content, "name"@),
            install_dir: install_path_spec(root, field_or_empty(content, "installdir"@)),
        })
    }
}

/// View of an optional pending record.
pub open spec fn pending_opt_view(r: Option<PendingGame>) -> Option<PendingView> {
    match r {
        Some(p) => Some(p@),
        None => None,
    }
}

/// The record for one manifest text, or nothing when the text has no
/// non-empty `appid` field.
pub fn game_from_manifest(content: &str, steam_root: &str) -> (r: Option<PendingGame>)
    ensures
        pending_opt_view(r) == pending_of(content@, steam_root@),
{
    match parse_manifest(content) {
        None => None,
        Some(f) => {
            let install_dir = install_path(steam_root, f.install_subdir.as_str());
            Some(PendingGame { app_id: f.app_id, name: f.name, install_dir })
        },
    }
}

/// The records yielded by a sequence of manifest texts, in order; texts
/// without a usable `appid` contribute nothing.
pub open spec fn pending_seq(contents: Seq<Seq<char>>, root: Seq<char>) -> Seq<PendingView>
    decreases contents.len(),
{
    if contents.len() == 0 {
        Seq::empty()
    } else {
        pending_seq(contents.drop_last(), root) + match pending_of(contents.last(), root) {
            Some(p) => seq![p],
            None => Seq::<PendingView>::empty(),
        }
    }
}

/// Scans a sequence of manifest texts into pending records, in order. Data
/// shape is the only reason a text is skipped; no input makes this fail.
pub fn pending_games(contents: &Vec<String>, steam_root: &str) -> (r: Vec<PendingGame>)
    ensures
        pending_views(r@) == pending_seq(seq_views(contents@), steam_root@),
{
    let ghost cv = seq_views(contents@);
    let mut r: Vec<PendingGame> = Vec::new();
    proof {
        assert(cv.take(0) =~= Seq::<Seq<char>>::empty());
    }
    let mut k: usize = 0;
    while k < contents.len()
        invariant
            k <= contents@.len(),
            cv == seq_views(contents@),
            pending_views(r@) == pending_seq(cv.take(k as int), steam_root@),
        decreases contents@.len() - k,
    {
        proof {
            assert(cv.take(k as int + 1).drop_last() =~= cv.take(k as int));
            assert(cv.take(k as int + 1).last() == contents@[k as int]@);
        }
        if let Some(p) = game_from_manifest(contents[k].as_str(), steam_root) {
            let ghost old_r = r@;
            r.push(p);
            proof {
                assert(pending_views(r@) =~= pending_views(old_r).push(p@));
                assert(pending_views(old_r).push(p@) =~= pending_seq(cv.take(k as int + 1), steam_root@));
            }
        } else {
            proof {
                assert(pending_seq(cv.take(k as int + 1), steam_root@) =~= pending_seq(cv.take(k as int), steam_root@));
            }
        }
        k = k + 1;
    }
    proof {
        assert(cv.take(contents@.len() as int) =~= cv);
    }
    r
}

/// A pending record, completed with whether its install directory was found
/// on disk; nothing else about the record changes.
pub fn finalize_game(p: PendingGame, installed: bool) -> (g: SteamGame)
    ensures
        g.app_id@ == p@.app_id,
        g.name@ == p@.name,
        g.install_dir@ == p@.install_dir,
        g.installed == installed,
{
    SteamGame { app_id: p.app_id, name: p.name, install_dir: p.install_dir, installed }
}

/// Law: a directory with no manifest-named entries scans to no games and to
/// no error: the name filter keeps nothing, and no texts yield no records.
pub proof fn lemma_scan_empty(names: Seq<Seq<char>>, root: Seq<char>)
    requires
        forall|i: int| 0 <= i < names.len() ==> !manifest_name(names[i]),
    ensures
        names.filter(|n: Seq<char>| manifest_name(n)) == Seq::<Seq<char>>::empty(),
        pending_seq(Seq::<Seq<char>>::empty(), root) == Seq::<PendingView>::empty(),
    decreases names.len(),
{
    reveal(Seq::filter);
    if names.len() > 0 {
        assert(!manifest_name(names[names.len() - 1]));
        lemma_scan_empty(names.drop_last(), root);
    }
}

/// Law: a manifest whose `appid` field is missing (or empty) is excluded from
/// the scan's records, whatever its other fields hold: removing that text
/// from the scanned sequence leaves the records unchanged.
pub proof fn lemma_missing_appid_excluded(contents: Seq<Seq<char>>, root: Seq<char>, k: int)
    requires
        0 <= k < contents.len(),
        field_or_empty(contents[k], "appid"@).len() == 0,
    ensures
        pending_seq(contents, root) == pending_seq(contents.remove(k), root),
    decreases contents.len(),
{
    if k == contents.len() - 1 {
        assert(contents.remove(k) =~= contents.drop_last());
        assert(pending_of(contents.last(), root) is None);
        assert(pending_seq(contents, root) =~= pending_seq(contents.drop_last(), root));
    } else {
        let shorter = contents.drop_last();
        assert(contents.remove(k).drop_last() =~= shorter.remove(k));
        assert(contents.remove(k).last() == contents.last());
        assert(shorter[k] == contents[k]);
        lemma_missing_appid_excluded(shorter, root, k);
    }
}

} // verus!
