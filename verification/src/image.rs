//! The operating systems a server offers: which files under the image
//! directory are base images, and the name each is offered under.
use crate::text::{
    ascii_lower, is_ascii_text, contains_char, ends_with, is_prefix, is_suffix, lowercase, starts_with, to_lowercase,
    trim_end_all, trim_end_matches, concat, concat_strs, decimal, decimal_string,
};
use crate::vm::{file_name, unix_file_name, CLONE_MARK};
use vstd::prelude::*;

verus! {

/// The file suffix of qcow2 base images.
pub const QCOW2_SUFFIX: &'static str = ".qcow2";

/// The texts of a list of pairs of strings.
pub open spec fn pair_views(v: Seq<(String, String)>) -> Seq<(Seq<char>, Seq<char>)> {
    v.map_values(|p: (String, String)| (p.0@, p.1@))
}

/// The texts of a list of entries (file name, path), `None` standing for a
/// path with no file name that is valid text.
pub open spec fn entry_views(v: Seq<(Option<String>, String)>) -> Seq<(Option<Seq<char>>, Seq<char>)> {
    v.map_values(|p: (Option<String>, String)| (match p.0 {
        Some(n) => Some(n@),
        None => None,
    }, p.1@))
}

/// An entry of the image directory: the file name of `path` (its final
/// component, `None` where it has none) and the path itself.
pub fn image_entry(path: &str) -> (res: (Option<String>, String))
    ensures
        res.1@ == path@,
        res.0 matches Some(n) ==> unix_file_name(path@) == Some(n@),
        res.0 is None ==> unix_file_name(path@) is None,
{
    (file_name(path), path.to_string())
}

/// Whether a ZFS volume name is a base snapshot: not a snapshot (`@`) and
/// not a clone made for a running VM.
pub open spec fn is_base_volume(name: Seq<char>) -> bool {
    !name.contains('@') && !is_prefix(CLONE_MARK@, name)
}

/// What a list of ZFS volumes (file name, path) offers: for each base
/// volume, in order, its name lower-cased paired with its own path.
pub open spec fn zfs_offers(entries: Seq<(Option<Seq<char>>, Seq<char>)>) -> Seq<(Seq<char>, Seq<char>)>
    decreases entries.len(),
{
    if entries.len() == 0 {
        Seq::empty()
    } else {
        let rest = zfs_offers(entries.drop_last());
        match entries.last().0 {
            Some(n) => if is_base_volume(n) {
                rest.push((lowercase(n), entries.last().1))
            } else {
                rest
            },
            None => rest,
        }
    }
}

/// What a list of qcow2 image files (file name, path) offers: for each file
/// whose name ends in `.qcow2`, in order, that name with every trailing
/// `.qcow2` removed and lower-cased, paired with the file's own path.
pub open spec fn qcow2_offers(entries: Seq<(Option<Seq<char>>, Seq<char>)>) -> Seq<(Seq<char>, Seq<char>)>
    decreases entries.len(),
{
    if entries.len() == 0 {
        Seq::empty()
    } else {
        let rest = qcow2_offers(entries.drop_last());
        match entries.last().0 {
            Some(n) => if is_suffix(QCOW2_SUFFIX@, n) {
                rest.push((lowercase(trim_end_all(n, QCOW2_SUFFIX@)), entries.last().1))
            } else {
                rest
            },
            None => rest,
        }
    }
}

/// What a ZFS server offers, from its volumes listed as (file name, path):
/// each base volume's name, lower-cased, with that volume's path.
pub fn zfs_os_info(entries: &Vec<(Option<String>, String)>) -> (res: Vec<(String, String)>)
    ensures
        pair_views(res@) == zfs_offers(entry_views(entries@)),
{
    let mut res: Vec<(String, String)> = Vec::new();
    let mut i: usize = 0;
    while i < entries.len()
        invariant
            i <= entries.len(),
            pair_views(res@) == zfs_offers(entry_views(entries@.subrange(0, i as int))),
        decreases entries.len() - i,
    {
        proof {
            let e = entries@.subrange(0, i + 1);
            assert(entry_views(e).drop_last() =~= entry_views(entries@.subrange(0, i as int)));
        }
        let ghost before = res@;
        match &entries[i].0 {
            Some(n) => {
                if !contains_char(n.as_str(), '@') && !starts_with(n.as_str(), CLONE_MARK) {
                    let l = to_lowercase(n.as_str());
                    res.push((l, entries[i].1.clone()));
                    assert(pair_views(res@) =~= pair_views(before).push((lowercase(n@), entries@[i as int].1@)));
                }
            },
            None => {},
        }
        i = i + 1;
    }
    assert(entries@.subrange(0, entries.len() as int) =~= entries@);
    res
}

/// What a qcow2 server offers, from its image files listed as (file name,
/// path): each name that ends in `.qcow2`, trimmed of it and lower-cased,
/// with that file's path.
pub fn qcow2_os_info(entries: &Vec<(Option<String>, String)>) -> (res: Vec<(String, String)>)
    ensures
        pair_views(res@) == qcow2_offers(entry_views(entries@)),
{
    let mut res: Vec<(String, String)> = Vec::new();
    let mut i: usize = 0;
    while i < entries.len()
        invariant
            i <= entries.len(),
            pair_views(res@) == qcow2_offers(entry_views(entries@.subrange(0, i as int))),
        decreases entries.len() - i,
    {
        proof {
            let e = entries@.subrange(0, i + 1);
            assert(entry_views(e).drop_last() =~= entry_views(entries@.subrange(0, i as int)));
        }
        let ghost before = res@;
        match &entries[i].0 {
            Some(n) => {
                if ends_with(n.as_str(), QCOW2_SUFFIX) {
                    let t = trim_end_matches(n.as_str(), QCOW2_SUFFIX);
                    let l = to_lowercase(t.as_str());
                    res.push((l, entries[i].1.clone()));
                    assert(pair_views(res@) =~= pair_views(before).push(
                        (lowercase(trim_end_all(n@, QCOW2_SUFFIX@)), entries@[i as int].1@),
                    ));
                }
            },
            None => {},
        }
        i = i + 1;
    }
    assert(entries@.subrange(0, entries.len() as int) =~= entries@);
    res
}

/// The stand-in list of a test server: CentOS 7.0 to 7.8, named
/// `centos7.N` (the ASCII lower-cased `CentOS7.N`), each at
/// `img_path/CentOS7.N` followed by `suffix`.
pub open spec fn mock_os_info_of(img_path: Seq<char>, suffix: Seq<char>) -> Seq<(Seq<char>, Seq<char>)> {
    Seq::new(
        9,
        |i: int|
            (
                ascii_lower("CentOS7."@ + decimal(i as nat)),
                concat(seq![img_path, "/CentOS7."@, decimal(i as nat), suffix]),
            ),
    )
}

/// The stand-in list of OS images of a test server.
pub fn mock_os_info(img_path: &str, suffix: &str) -> (res: Vec<(String, String)>)
    ensures
        pair_views(res@) == mock_os_info_of(img_path@, suffix@),
{
    let mut res: Vec<(String, String)> = Vec::new();
    let mut i: u64 = 0;
    while i < 9
        invariant
            i <= 9,
            pair_views(res@) =~= mock_os_info_of(img_path@, suffix@).subrange(0, i as int),
        decreases 9 - i,
    {
        let d = decimal_string(i);
        let mut name = String::new();
        name.append("CentOS7.");
        name.append(d.as_str());
        proof {
            reveal_strlit("CentOS7.");
            crate::text::lemma_decimal_digits(i as nat);
            let nv = "CentOS7."@ + decimal(i as nat);
            assert forall|j: int| 0 <= j < nv.len() implies (#[trigger] nv[j] as int) < 128 by {
                if j >= 8 {
                    assert(nv[j] == decimal(i as nat)[j - 8]);
                }
            }
            assert(name@ =~= nv);
            assert(is_ascii_text(name@));
        }
        let key = to_lowercase(name.as_str());
        let v = vec![img_path, "/CentOS7.", d.as_str(), suffix];
        let path = concat_strs(&v);
        assert(v@.map_values(|p: &str| p@) =~= seq![img_path@, "/CentOS7."@, decimal(i as nat), suffix@]);
        assert(name@ =~= "CentOS7."@ + decimal(i as nat));
        let ghost before = res@;
        res.push((key, path));
        assert(pair_views(res@) =~= pair_views(before).push(mock_os_info_of(img_path@, suffix@)[i as int]));
        i = i + 1;
    }
    res
}

} // verus!
