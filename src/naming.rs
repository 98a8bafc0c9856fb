use vstd::prelude::*;
use vstd::string::*;
use crate::reconcile::last_component;
use crate::task::strings_view;
use crate::text::{decimal, decimal_string, starts_with_ignore_case, starts_with_no_case};

verus! {

/// What precedes the first `?` of `s` (all of `s` if it has none).
pub open spec fn before_query(s: Seq<char>) -> Seq<char>
    decreases s.len(),
{
    if s.len() == 0 || s[0] == '?' {
        Seq::empty()
    } else {
        seq![s[0]] + before_query(s.drop_first())
    }
}

/// The file name that a download gets: the one asked for if not empty, else the last path
/// segment of the first URL without its query, else `Unknown`.
pub open spec fn deduced_name(filename: Option<Seq<char>>, urls: Seq<Seq<char>>) -> Seq<char> {
    if filename is Some && filename.unwrap().len() > 0 {
        filename.unwrap()
    } else if urls.len() > 0 && before_query(last_component(urls[0])).len() > 0 {
        before_query(last_component(urls[0]))
    } else {
        "Unknown"@
    }
}

/// Index of the last `.` of a name, when it is a true extension dot (not the first char).
pub open spec fn ext_dot(f: Seq<char>) -> Option<int> {
    if exists|i: int| 0 < i < f.len() && f[i] == '.' && forall|j: int| i < j < f.len() ==> f[j] != '.' {
        Some(choose|i: int| 0 < i < f.len() && f[i] == '.' && forall|j: int| i < j < f.len() ==> f[j] != '.')
    } else {
        None
    }
}

pub open spec fn stem_of(f: Seq<char>) -> Seq<char> {
    match ext_dot(f) {
        Some(i) => f.subrange(0, i),
        None => f,
    }
}

pub open spec fn ext_of(f: Seq<char>) -> Seq<char> {
    match ext_dot(f) {
        Some(i) => f.subrange(i, f.len() as int),
        None => Seq::empty(),
    }
}

/// The `n`-th alternative of a name: `stem (n).ext`.
pub open spec fn numbered(f: Seq<char>, n: nat) -> Seq<char> {
    stem_of(f) + " ("@ + decimal(n) + ")"@ + ext_of(f)
}

/// The largest counter tried; the name with it is taken without a check.
pub const MAX_NAME_COUNTER: u64 = 10000;

pub open spec fn is_taken(name: Seq<char>, reserved: Seq<Seq<char>>, existing: Seq<Seq<char>>) -> bool {
    reserved.contains(name) || existing.contains(name)
}

/// The name a new download gets: `f` if free, else the first free numbered alternative,
/// else the alternative with the largest counter.
pub open spec fn unique_name(f: Seq<char>, reserved: Seq<Seq<char>>, existing: Seq<Seq<char>>) -> Seq<char> {
    if !is_taken(f, reserved, existing) {
        f
    } else if exists|n: nat| 1 <= n < MAX_NAME_COUNTER && !is_taken(numbered(f, n), reserved, existing) {
        numbered(
            f,
            choose|n: nat|
                1 <= n < MAX_NAME_COUNTER && !is_taken(numbered(f, n), reserved, existing) && forall|m: nat|
                    1 <= m < n ==> is_taken(numbered(f, m), reserved, existing),
        )
    } else {
        numbered(f, MAX_NAME_COUNTER as nat)
    }
}

proof fn lemma_before_query(s: Seq<char>, k: int)
    requires
        0 <= k <= s.len(),
        k == s.len() || s[k] == '?',
        forall|j: int| 0 <= j < k ==> s[j] != '?',
    ensures
        before_query(s) == s.subrange(0, k),
    decreases k,
{
    if k == 0 {
        assert(s.subrange(0, 0) =~= Seq::<char>::empty());
    } else {
        lemma_before_query(s.drop_first(), k - 1);
        assert(s.subrange(0, k) =~= seq![s[0]] + s.drop_first().subrange(0, k - 1));
    }
}

fn cut_query(s: &str) -> (r: String)
    ensures
        r@ == before_query(s@),
{
    let n = s.unicode_len();
    let mut k: usize = 0;
    while k < n && s.get_char(k) != '?'
        invariant
            n == s@.len(),
            k <= n,
            forall|j: int| 0 <= j < k ==> s@[j] != '?',
        decreases n - k,
    {
        k += 1;
    }
    proof {
        lemma_before_query(s@, k as int);
    }
    String::from_str(s.substring_char(0, k))
}

fn last_segment(p: &str) -> (r: String)
    ensures
        r@ == last_component(p@),
{
    crate::reconcile::last_component_of(p)
}

/// The file name that a download gets; see [`deduced_name`].
pub fn deduce_filename(filename: Option<String>, urls: &Vec<String>) -> (r: String)
    ensures
        r@ == deduced_name(crate::task::opt_view(filename), strings_view(urls@)),
{
    proof {
        reveal_strlit("Unknown");
    }
    match filename {
        Some(out) => {
            if out.unicode_len() > 0 {
                return out;
            }
        },
        None => {},
    }
    if urls.len() > 0 {
        let seg = last_segment(urls[0].as_str());
        let clean = cut_query(seg.as_str());
        if clean.unicode_len() > 0 {
            return clean;
        }
    }
    String::from_str("Unknown")
}

fn contains_name(v: &Vec<String>, s: &str) -> (r: bool)
    ensures
        r == strings_view(v@).contains(s@),
{
    let mut i: usize = 0;
    while i < v.len()
        invariant
            i <= v@.len(),
            forall|k: int| 0 <= k < i ==> v@[k]@ != s@,
        decreases v@.len() - i,
    {
        if crate::state::str_equal(v[i].as_str(), s) {
            assert(strings_view(v@)[i as int] == s@);
            return true;
        }
        i += 1;
    }
    proof {
        if strings_view(v@).contains(s@) {
            let k = choose|k: int| 0 <= k < v@.len() && strings_view(v@)[k] == s@;
            assert(v@[k]@ == s@);
        }
    }
    false
}

/// Splits a name at its extension dot: `(stem, ext)`.
fn split_ext(f: &str) -> (r: (String, String))
    ensures
        r.0@ == stem_of(f@),
        r.1@ == ext_of(f@),
{
    let n = f.unicode_len();
    let mut i: usize = n;
    while i > 0 && f.get_char(i - 1) != '.'
        invariant
            n == f@.len(),
            i <= n,
            forall|j: int| i <= j < n ==> f@[j] != '.',
        decreases i,
    {
        i -= 1;
    }
    if i <= 1 {
        proof {
            if exists|k: int| 0 < k < f@.len() && f@[k] == '.' && forall|j: int| k < j < f@.len() ==> f@[j] != '.' {
                let k = choose|k: int| 0 < k < f@.len() && f@[k] == '.' && forall|j: int| k < j < f@.len() ==> f@[j] != '.';
                assert(k < i);
                assert(false);
            }
            assert(ext_dot(f@) is None);
            assert(Seq::<char>::empty() == ext_of(f@));
        }
        (String::from_str(f), String::new())
    } else {
        let d = i - 1;
        proof {
            assert(0 < d < f@.len() && f@[d as int] == '.' && forall|j: int| d < j < f@.len() ==> f@[j] != '.');
            let k = choose|k: int| 0 < k < f@.len() && f@[k] == '.' && forall|j: int| k < j < f@.len() ==> f@[j] != '.';
            if k < d {
                assert(f@[d as int] != '.');
            }
            if k > d {
                assert(f@[k] != '.');
            }
            assert(ext_dot(f@) == Some(d as int));
        }
        (String::from_str(f.substring_char(0, d)), String::from_str(f.substring_char(d, n)))
    }
}

/// The name a new download gets, given the names that tracked tasks use (`reserved_names`)
/// and the names already in the target folder (`existing_names`); see [`unique_name`].
pub fn get_unique_filename(filename: &str, reserved_names: &Vec<String>, existing_names: &Vec<String>) -> (r: String)
    ensures
        r@ == unique_name(filename@, strings_view(reserved_names@), strings_view(existing_names@)),
{
    let ghost rs = strings_view(reserved_names@);
    let ghost es = strings_view(existing_names@);
    if !contains_name(reserved_names, filename) && !contains_name(existing_names, filename) {
        return String::from_str(filename);
    }
    let (stem, ext) = split_ext(filename);
    proof {
        reveal_strlit(" (");
        reveal_strlit(")");
    }
    let mut n: u64 = 1;
    loop
        invariant
            1 <= n <= MAX_NAME_COUNTER,
            is_taken(filename@, rs, es),
            rs == strings_view(reserved_names@),
            es == strings_view(existing_names@),
            stem@ == stem_of(filename@),
            ext@ == ext_of(filename@),
            forall|m: nat| 1 <= m < n ==> is_taken(numbered(filename@, m), rs, es),
        decreases MAX_NAME_COUNTER - n,
    {
        let mut name = stem.clone();
        name.append(" (");
        let digits = decimal_string(n);
        name.append(digits.as_str());
        name.append(")");
        name.append(ext.as_str());
        assert(name@ =~= numbered(filename@, n as nat));
        if n == MAX_NAME_COUNTER {
            proof {
                assert(!exists|k: nat| 1 <= k < MAX_NAME_COUNTER && !is_taken(numbered(filename@, k), rs, es));
            }
            return name;
        }
        if !contains_name(reserved_names, name.as_str()) && !contains_name(existing_names, name.as_str()) {
            proof {
                let w = n as nat;
                assert(1 <= w < MAX_NAME_COUNTER && !is_taken(numbered(filename@, w), rs, es));
                let c = choose|c: nat|
                    1 <= c < MAX_NAME_COUNTER && !is_taken(numbered(filename@, c), rs, es) && forall|m: nat|
                        1 <= m < c ==> is_taken(numbered(filename@, m), rs, es);
                if c < w {
                    assert(is_taken(numbered(filename@, c), rs, es));
                }
                if c > w {
                    assert(is_taken(numbered(filename@, w), rs, es));
                }
            }
            return name;
        }
        n += 1;
    }
}

/// Whether `u` names an http, https, ftp or ftps source, scheme compared without case.
pub open spec fn url_ok(u: Seq<char>) -> bool {
    starts_with_ignore_case(u, "http://"@) || starts_with_ignore_case(u, "https://"@)
        || starts_with_ignore_case(u, "ftp://"@) || starts_with_ignore_case(u, "ftps://"@)
}

/// Whether `url` names an http, https, ftp or ftps source, scheme compared without case.
pub fn is_valid_url(url: &str) -> (r: bool)
    ensures
        r == url_ok(url@),
{
    starts_with_no_case(url, "http://") || starts_with_no_case(url, "https://") || starts_with_no_case(url, "ftp://")
        || starts_with_no_case(url, "ftps://")
}

/// A path with a leading `~` read against the home folder `home`, if known.
pub open spec fn resolved_with(p: Seq<char>, home: Option<Seq<char>>) -> Seq<char> {
    if p.len() > 0 && p[0] == '~' && home is Some {
        home.unwrap() + p.drop_first()
    } else {
        p
    }
}

/// Reads a leading `~` of `path` against `home`.
pub fn resolve_path_with_home(path: &str, home: Option<String>) -> (r: String)
    ensures
        r@ == resolved_with(path@, crate::task::opt_view(home)),
{
    let n = path.unicode_len();
    if n > 0 && path.get_char(0) == '~' {
        match home {
            Some(h) => {
                let mut r = h;
                r.append(path.substring_char(1, n));
                assert(path@.subrange(1, n as int) =~= path@.drop_first());
                return r;
            },
            None => {},
        }
    }
    String::from_str(path)
}

/// Relies on `dirs::home_dir`: the home folder of the current user, if it can be found,
/// as text (empty when it is not valid Unicode). It depends on the environment, so
/// nothing is known of the value.
#[verifier::external_body]
pub(crate) fn home_folder() -> (r: Option<String>) {
    dirs::home_dir().map(|p| p.to_str().unwrap_or("").to_string())
}

/// Reads a leading `~` of `path` against the home folder of the current user.
pub fn resolve_path(path: &str) -> (r: String)
    ensures
        exists|home: Option<Seq<char>>| #[trigger] resolved_with(path@, home) == r@,
{
    let home = home_folder();
    resolve_path_with_home(path, home)
}

/// `name` inside folder `dir`, joined with `/`; an absolute `name` stands alone.
pub open spec fn joined(dir: Seq<char>, name: Seq<char>) -> Seq<char> {
    if name.len() > 0 && name[0] == '/' {
        name
    } else if dir.len() > 0 && dir.last() == '/' {
        dir + name
    } else {
        dir + "/"@ + name
    }
}

/// Where a download's file lies, before `~` is read.
pub open spec fn full_path_of(save_path: Seq<char>, filename: Seq<char>) -> Seq<char> {
    if save_path.len() == 0 {
        filename
    } else {
        joined(save_path, filename)
    }
}

/// `filename` inside `save_path` with a leading `~` read against the home folder.
pub fn get_full_path(save_path: &str, filename: &str) -> (r: String)
    ensures
        exists|home: Option<Seq<char>>| #[trigger] resolved_with(full_path_of(save_path@, filename@), home) == r@,
{
    if save_path.unicode_len() == 0 {
        let r = resolve_path(filename);
        proof {
            let home = choose|home: Option<Seq<char>>| #[trigger] resolved_with(filename@, home) == r@;
            assert(resolved_with(full_path_of(save_path@, filename@), home) == r@);
        }
        return r;
    }
    proof {
        reveal_strlit("/");
    }
    let mut p = String::from_str(save_path);
    let n = filename.unicode_len();
    let m = save_path.unicode_len();
    let joined_path = if n > 0 && filename.get_char(0) == '/' {
        String::from_str(filename)
    } else if save_path.get_char(m - 1) == '/' {
        p.append(filename);
        p
    } else {
        p.append("/");
        p.append(filename);
        p
    };
    assert(joined_path@ == full_path_of(save_path@, filename@));
    let r = resolve_path(joined_path.as_str());
    proof {
        let home = choose|home: Option<Seq<char>>| #[trigger] resolved_with(joined_path@, home) == r@;
        assert(resolved_with(full_path_of(save_path@, filename@), home) == r@);
    }
    r
}

} // verus!
