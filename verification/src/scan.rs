//! Scanner: deciding which entries of a directory listing are wallpaper
//! candidates.
//!
//! The caller reads the directory and hands over one [`DirEntry`] per
//! entry (or nothing at all when the directory cannot be resolved); the
//! functions here filter the listing by a case-insensitive set of allowed
//! extensions and build one [`Image`] per qualifying entry.

use crate::image::{Image, ImageView};
use vstd::prelude::*;

verus! {

/// Mathematical value of a [`DirEntry`].
pub ghost struct DirEntryView {
    pub file_name: Seq<char>,
    pub path: Seq<char>,
    pub is_regular_file: bool,
}

/// One entry of a directory listing, as plain values: the file name, the
/// absolute path, and whether the entry is a regular file (directories,
/// sockets and the like are reported with `is_regular_file == false` and
/// are skipped).
#[derive(Clone, Debug)]
pub struct DirEntry {
    pub file_name: String,
    pub path: String,
    pub is_regular_file: bool,
}

impl View for DirEntry {
    type V = DirEntryView;

    open spec fn view(&self) -> DirEntryView {
        DirEntryView {
            file_name: self.file_name@,
            path: self.path@,
            is_regular_file: self.is_regular_file,
        }
    }
}

/// Why a scan could not start at all.
#[derive(Clone, Copy, Debug, PartialEq, Eq, Structural)]
pub enum ScanError {
    /// The source directory does not exist or could not be resolved.
    DirectoryUnresolvable,
}

impl ScanError {
    /// Diagnostic text for the caller's error channel.
    pub fn message(&self) -> (m: String)
        ensures
            m@ == "Wallpaper directory could not be resolved"@,
    {
        "Wallpaper directory could not be resolved".to_owned()
    }
}

/// Code point of `c`, with an ASCII upper-case letter folded to lower case.
pub open spec fn folded_code(c: char) -> int {
    if 65 <= c as u32 && c as u32 <= 90 {
        c as u32 + 32
    } else {
        c as u32 as int
    }
}

/// `a` and `b` are the same character up to ASCII case.
pub open spec fn chars_eq_fold(a: char, b: char) -> bool {
    folded_code(a) == folded_code(b)
}

/// `a` and `b` are the same character sequence up to ASCII case.
pub open spec fn seq_eq_fold(a: Seq<char>, b: Seq<char>) -> bool {
    a.len() == b.len() && (forall|i: int| 0 <= i < a.len() ==> chars_eq_fold(a[i], b[i]))
}

/// Index of the last `'.'` in `name`, if any.
pub open spec fn last_dot(name: Seq<char>) -> Option<int>
    decreases name.len(),
{
    if name.len() == 0 {
        None
    } else if name[name.len() - 1] == '.' {
        Some(name.len() - 1)
    } else {
        last_dot(name.drop_last())
    }
}

/// The extension of a file name: the characters after the last `'.'`,
/// provided that dot is not the leading character (a leading dot marks a
/// hidden file, not an extension).
pub open spec fn extension_of(name: Seq<char>) -> Option<Seq<char>> {
    match last_dot(name) {
        Some(i) => if i > 0 {
            Some(name.subrange(i + 1, name.len() as int))
        } else {
            None
        },
        None => None,
    }
}

/// Does `ext` match one of `allowed`, ignoring ASCII case on both sides?
pub open spec fn matches_any(ext: Seq<char>, allowed: Seq<Seq<char>>) -> bool {
    exists|i: int| 0 <= i < allowed.len() && seq_eq_fold(ext, allowed[i])
}

/// A directory entry qualifies when it is a regular file whose name has an
/// extension in the allowed set.
pub open spec fn entry_is_allowed(e: DirEntryView, allowed: Seq<Seq<char>>) -> bool {
    e.is_regular_file && match extension_of(e.file_name) {
        Some(ext) => matches_any(ext, allowed),
        None => false,
    }
}

/// The candidate built from a qualifying entry: display name from the
/// entry's file name, path from its absolute path, no thumbnail.
pub open spec fn image_of(e: DirEntryView) -> ImageView {
    ImageView { name: e.file_name, img_path: e.path, thumbnail_path: Seq::empty() }
}

/// The images a scan reports for `entries`, in listing order.
pub open spec fn scan_images(entries: Seq<DirEntryView>, allowed: Seq<Seq<char>>) -> Seq<ImageView>
    decreases entries.len(),
{
    if entries.len() == 0 {
        Seq::empty()
    } else {
        let rest = scan_images(entries.drop_last(), allowed);
        if entry_is_allowed(entries.last(), allowed) {
            rest.push(image_of(entries.last()))
        } else {
            rest
        }
    }
}

/// How many entries of `entries` qualify.
pub open spec fn count_allowed(entries: Seq<DirEntryView>, allowed: Seq<Seq<char>>) -> nat
    decreases entries.len(),
{
    if entries.len() == 0 {
        0
    } else {
        count_allowed(entries.drop_last(), allowed) + if entry_is_allowed(
            entries.last(),
            allowed,
        ) {
            1nat
        } else {
            0nat
        }
    }
}

/// A scan notifies the listener exactly once per qualifying entry: among
/// any mix of entries, exactly as many images are reported as there are
/// regular files with an allowed extension — and none when there are none.
pub proof fn lemma_scan_count(entries: Seq<DirEntryView>, allowed: Seq<Seq<char>>)
    ensures
        scan_images(entries, allowed).len() == count_allowed(entries, allowed),
        count_allowed(entries, allowed) == 0 ==> scan_images(entries, allowed) =~= Seq::<
            ImageView,
        >::empty(),
    decreases entries.len(),
{
    if entries.len() > 0 {
        lemma_scan_count(entries.drop_last(), allowed);
    }
}

/// The views of a listing.
pub open spec fn entries_view(v: Seq<DirEntry>) -> Seq<DirEntryView> {
    v.map_values(|e: DirEntry| e@)
}

/// The views of a scan result.
pub open spec fn images_view(v: Seq<Image>) -> Seq<ImageView> {
    v.map_values(|i: Image| i@)
}

/// The views of the allowed extensions.
pub open spec fn exts_view(v: Seq<String>) -> Seq<Seq<char>> {
    v.map_values(|s: String| s@)
}

/// When no character from position `j` on is a dot, the last dot of `s`
/// is the last dot of its prefix of length `j`.
proof fn lemma_last_dot_prefix(s: Seq<char>, j: int)
    requires
        0 <= j <= s.len(),
        forall|k: int| j <= k < s.len() ==> s[k] != '.',
    ensures
        last_dot(s) == last_dot(s.take(j)),
    decreases s.len() - j,
{
    if j < s.len() {
        let t = s.take(s.len() - 1);
        assert(s[s.len() - 1] != '.');
        assert(s.drop_last() =~= t);
        assert(last_dot(s) == last_dot(s.drop_last()));
        assert(forall|k: int| j <= k < t.len() ==> t[k] == s[k]);
        lemma_last_dot_prefix(t, j);
        assert(t.take(j) =~= s.take(j));
    } else {
        assert(s.take(j) =~= s);
    }
}

/// A last-dot index is a dot strictly inside the sequence.
proof fn lemma_last_dot_in_range(s: Seq<char>)
    ensures
        last_dot(s) is Some ==> {
            let i = last_dot(s)->0;
            0 <= i < s.len() && s[i] == '.'
        },
    decreases s.len(),
{
    if s.len() > 0 && s[s.len() - 1] != '.' {
        lemma_last_dot_in_range(s.drop_last());
    }
}

/// Position of the last `'.'` of `name`, scanning from the end.
fn find_last_dot(name: &str) -> (r: Option<usize>)
    ensures
        match r {
            Some(i) => last_dot(name@) == Some(i as int),
            None => last_dot(name@) is None,
        },
{
    let n = name.unicode_len();
    let mut i = n;
    while i > 0
        invariant
            i <= n,
            n == name@.len(),
            forall|k: int| i <= k < n ==> name@[k] != '.',
        decreases i,
    {
        if name.get_char(i - 1) == '.' {
            proof {
                lemma_last_dot_prefix(name@, i as int);
                assert(name@.take(i as int).last() == '.');
            }
            return Some(i - 1);
        }
        i = i - 1;
    }
    proof {
        lemma_last_dot_prefix(name@, 0);
        assert(name@.take(0) =~= Seq::<char>::empty());
    }
    None
}

/// The extension of `name`, if it has one.
pub fn file_extension(name: &str) -> (r: Option<&str>)
    ensures
        r is Some <==> extension_of(name@) is Some,
        r is Some ==> extension_of(name@) == Some(r->0@),
{
    let n = name.unicode_len();
    match find_last_dot(name) {
        Some(i) => {
            proof {
                lemma_last_dot_in_range(name@);
            }
            if i > 0 {
                Some(name.substring_char(i + 1, n))
            } else {
                None
            }
        },
        None => None,
    }
}

/// Are `a` and `b` the same character up to ASCII case?
fn char_matches(a: char, b: char) -> (r: bool)
    ensures
        r == chars_eq_fold(a, b),
{
    let ca: u32 = a as u32;
    let cb: u32 = b as u32;
    let la: u32 = if 65 <= ca && ca <= 90 {
        ca + 32
    } else {
        ca
    };
    let lb: u32 = if 65 <= cb && cb <= 90 {
        cb + 32
    } else {
        cb
    };
    la == lb
}

/// Are `a` and `b` equal up to ASCII case?
fn str_eq_fold(a: &str, b: &str) -> (r: bool)
    ensures
        r == seq_eq_fold(a@, b@),
{
    let na = a.unicode_len();
    let nb = b.unicode_len();
    if na != nb {
        return false;
    }
    let mut i: usize = 0;
    while i < na
        invariant
            i <= na,
            na == a@.len(),
            na == b@.len(),
            forall|k: int| 0 <= k < i ==> chars_eq_fold(a@[k], b@[k]),
        decreases na - i,
    {
        if !char_matches(a.get_char(i), b.get_char(i)) {
            assert(!chars_eq_fold(a@[i as int], b@[i as int]));
            return false;
        }
        i = i + 1;
    }
    true
}

/// Does `ext` match one of `allowed`, ignoring ASCII case?
fn ext_matches(ext: &str, allowed: &Vec<String>) -> (r: bool)
    ensures
        r == matches_any(ext@, exts_view(allowed@)),
{
    let n = allowed.len();
    let mut i: usize = 0;
    while i < n
        invariant
            i <= n,
            n == allowed@.len(),
            forall|k: int| 0 <= k < i ==> !seq_eq_fold(ext@, exts_view(allowed@)[k]),
        decreases n - i,
    {
        if str_eq_fold(ext, allowed[i].as_str()) {
            assert(seq_eq_fold(ext@, exts_view(allowed@)[i as int]));
            return true;
        }
        i = i + 1;
    }
    false
}

/// Build the candidate for one directory entry, if it qualifies: a
/// regular file whose extension is in the allowed set becomes an [`Image`]
/// named after the file; every other entry is skipped.
pub fn image_for_entry(entry: &DirEntry, allowed: &Vec<String>) -> (r: Option<Image>)
    ensures
        r is Some <==> entry_is_allowed(entry@, exts_view(allowed@)),
        r is Some ==> r->0@ == image_of(entry@),
{
    if !entry.is_regular_file {
        return None;
    }
    match file_extension(entry.file_name.as_str()) {
        None => None,
        Some(ext) => {
            if ext_matches(ext, allowed) {
                Some(
                    Image {
                        name: entry.file_name.clone(),
                        img_path: entry.path.clone(),
                        thumbnail_path: String::new(),
                    },
                )
            } else {
                None
            }
        },
    }
}

/// Filter a directory listing down to the wallpaper candidates.
///
/// `listing` is `None` when the source directory could not be resolved:
/// that is fatal, no images are reported, and the error says so. With a
/// listing in hand the scan always succeeds and reports exactly the
/// qualifying entries, in listing order.
pub fn scan_entries(listing: Option<Vec<DirEntry>>, allowed: &Vec<String>) -> (r: Result<
    Vec<Image>,
    ScanError,
>)
    ensures
        r is Err <==> listing is None,
        r is Err ==> r->Err_0 == ScanError::DirectoryUnresolvable,
        r is Ok ==> images_view(r->Ok_0@) == scan_images(
            entries_view(listing->0@),
            exts_view(allowed@),
        ),
{
    match listing {
        None => Err(ScanError::DirectoryUnresolvable),
        Some(entries) => {
            let ghost all = exts_view(allowed@);
            let mut out: Vec<Image> = Vec::new();
            let n = entries.len();
            let mut i: usize = 0;
            proof {
                assert(entries_view(entries@.take(0)) =~= Seq::<DirEntryView>::empty());
                assert(images_view(out@) =~= Seq::<ImageView>::empty());
            }
            while i < n
                invariant
                    i <= n,
                    n == entries@.len(),
                    all == exts_view(allowed@),
                    images_view(out@) == scan_images(entries_view(entries@.take(i as int)), all),
                decreases n - i,
            {
                let ghost prefix = entries_view(entries@.take(i as int));
                let ghost step = entries_view(entries@.take(i + 1));
                proof {
                    assert(step.drop_last() =~= prefix);
                    assert(step.last() == entries@[i as int]@);
                }
                match image_for_entry(&entries[i], allowed) {
                    Some(img) => {
                        let ghost before = out@;
                        out.push(img);
                        proof {
                            assert(images_view(out@) =~= images_view(before).push(img@));
                        }
                    },
                    None => {},
                }
                i = i + 1;
            }
            proof {
                assert(entries@.take(n as int) =~= entries@);
            }
            Ok(out)
        },
    }
}

} // verus!
