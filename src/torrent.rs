use vstd::prelude::*;
use vstd::string::*;
use crate::error::AppError;
use crate::task::strings_view;

verus! {

/// Largest torrent file that is read, in bytes.
pub const MAX_TORRENT_BYTES: u64 = 20971520;

/// One file of a torrent.
#[derive(Debug, Clone)]
pub struct TorrentFile {
    pub path: String,
    pub length: u64,
    pub index: usize,
}

/// What a torrent holds.
#[derive(Debug, Clone)]
pub struct TorrentInfo {
    pub name: String,
    pub files: Vec<TorrentFile>,
    pub total_length: u64,
}

/// One entry of a torrent's file list as decoded: path components and length.
#[derive(Debug, Clone)]
pub struct TorrentEntry {
    pub path: Vec<String>,
    pub length: u64,
}

/// Path components joined with `/`.
pub open spec fn joined_parts(parts: Seq<Seq<char>>) -> Seq<char>
    decreases parts.len(),
{
    if parts.len() == 0 {
        Seq::empty()
    } else if parts.len() == 1 {
        parts[0]
    } else {
        joined_parts(parts.drop_last()) + "/"@ + parts.last()
    }
}

pub open spec fn entry_lengths(v: Seq<TorrentEntry>) -> Seq<u64> {
    v.map_values(|e: TorrentEntry| e.length)
}

pub open spec fn total_of(s: Seq<u64>) -> nat
    decreases s.len(),
{
    if s.len() == 0 {
        0
    } else {
        total_of(s.drop_last()) + s.last() as nat
    }
}

/// Whether a decoded torrent gives a file list: a list, or a single length.
pub open spec fn torrent_ok(length: Option<u64>, files: Option<Vec<TorrentEntry>>) -> bool {
    match files {
        Some(v) => total_of(entry_lengths(v@)) <= u64::MAX,
        None => length is Some,
    }
}

/// Rejects a torrent file larger than [`MAX_TORRENT_BYTES`].
pub fn check_torrent_size(len: u64) -> (r: Result<(), AppError>)
    ensures
        r is Ok <==> len <= MAX_TORRENT_BYTES,
        r matches Err(e) ==> e is Validation,
{
    if len > MAX_TORRENT_BYTES {
        Err(AppError::Validation(String::from_str("file too large for a torrent")))
    } else {
        Ok(())
    }
}

fn join_path(parts: &Vec<String>) -> (r: String)
    ensures
        r@ == joined_parts(strings_view(parts@)),
{
    proof {
        reveal_strlit("/");
    }
    let mut r = String::new();
    let mut i: usize = 0;
    while i < parts.len()
        invariant
            i <= parts@.len(),
            r@ == joined_parts(strings_view(parts@).subrange(0, i as int)),
        decreases parts@.len() - i,
    {
        let ghost pre = strings_view(parts@).subrange(0, i as int);
        assert(strings_view(parts@).subrange(0, i + 1).drop_last() =~= pre);
        if i > 0 {
            r.append("/");
        } else {
            assert(r@ =~= Seq::<char>::empty());
        }
        r.append(parts[i].as_str());
        i += 1;
    }
    assert(strings_view(parts@).subrange(0, i as int) =~= strings_view(parts@));
    r
}

/// The file list of a decoded torrent: the entries of its list, paths joined with `/`
/// and numbered from zero, or else its single file under the torrent's name.
pub fn torrent_info(name: String, length: Option<u64>, files: Option<Vec<TorrentEntry>>) -> (r: Result<TorrentInfo, AppError>)
    ensures
        r is Ok <==> torrent_ok(length, files),
        r matches Err(e) ==> e is Validation,
        r matches Ok(info) ==> info.name@ == name@ && match files {
            Some(v) => info.files@.len() == v@.len() && info.total_length == total_of(entry_lengths(v@))
                && forall|i: int| 0 <= i < v@.len() ==> #[trigger] info.files@[i].path@ == joined_parts(
                    strings_view(v@[i].path@),
                ) && info.files@[i].length == v@[i].length && info.files@[i].index == i,
            None => info.files@.len() == 1 && info.files@[0].path@ == name@ && info.files@[0].length
                == length.unwrap() && info.files@[0].index == 0 && info.total_length == length.unwrap(),
        },
{
    match files {
        Some(list) => {
            let mut out: Vec<TorrentFile> = Vec::new();
            let mut total: u64 = 0;
            let mut i: usize = 0;
            while i < list.len()
                invariant
                    files == Some(list),
                    i <= list@.len(),
                    out@.len() == i,
                    total == total_of(entry_lengths(list@).subrange(0, i as int)),
                    forall|k: int| 0 <= k < i ==> #[trigger] out@[k].path@ == joined_parts(strings_view(list@[k].path@))
                        && out@[k].length == list@[k].length && out@[k].index == k,
                decreases list@.len() - i,
            {
                let ghost ls = entry_lengths(list@);
                assert(ls.subrange(0, i + 1).drop_last() =~= ls.subrange(0, i as int));
                assert(ls[i as int] == list@[i as int].length);
                assert(total_of(ls.subrange(0, i + 1)) == total + ls[i as int]);
                if total > u64::MAX - list[i].length {
                    proof {
                        lemma_total_grows(ls, i + 1);
                        assert(files == Some(list));
                        assert(total_of(ls) > u64::MAX);
                    }
                    return Err(AppError::Validation(String::from_str("torrent sizes overflow")));
                }
                total = total + list[i].length;
                out.push(TorrentFile { path: join_path(&list[i].path), length: list[i].length, index: i });
                i += 1;
            }
            assert(entry_lengths(list@).subrange(0, i as int) =~= entry_lengths(list@));
            let info = TorrentInfo { name, files: out, total_length: total };
            assert(files == Some(list));
            assert(info.files@.len() == list@.len());
            assert(info.total_length == total_of(entry_lengths(list@)));
            assert(forall|k: int| 0 <= k < list@.len() ==> #[trigger] info.files@[k].path@ == joined_parts(
                strings_view(list@[k].path@),
            ) && info.files@[k].length == list@[k].length && info.files@[k].index == k);
            Ok(info)
        },
        None => match length {
            Some(l) => {
                let f = TorrentFile { path: name.clone(), length: l, index: 0 };
                let mut v: Vec<TorrentFile> = Vec::new();
                v.push(f);
                assert(v@[0] == f);
                Ok(TorrentInfo { name, files: v, total_length: l })
            },
            None => Err(AppError::Validation(String::from_str("torrent has neither a length nor a file list"))),
        },
    }
}

proof fn lemma_total_grows(s: Seq<u64>, k: int)
    requires
        0 <= k <= s.len(),
    ensures
        total_of(s.subrange(0, k)) <= total_of(s),
    decreases s.len() - k,
{
    if k < s.len() {
        lemma_total_grows(s, k + 1);
        assert(s.subrange(0, k + 1).drop_last() =~= s.subrange(0, k));
    } else {
        assert(s.subrange(0, k) =~= s);
    }
}

} // verus!
