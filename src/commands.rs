use vstd::prelude::*;
use vstd::string::*;
use crate::error::AppError;
use crate::naming::{home_folder, resolve_path_with_home, resolved_with};
use crate::state::TaskState;
use crate::task::{clone_opt, clone_strings, opt_view, strings_view, PersistedTask, TaskRecord};
use crate::text::{header_items, split_headers};
use crate::naming::{is_valid_url, url_ok};
use crate::reconcile::{last_component, last_component_of};
use crate::torrent::MAX_TORRENT_BYTES;
use crate::supervisor::{bool_word, WorkerConfig};
use crate::text::{decimal, decimal_string};

verus! {

/// Parameters of a download request.
#[derive(Debug, Clone)]
pub struct DownloadConfig {
    pub urls: Vec<String>,
    pub save_path: Option<String>,
    pub filename: Option<String>,
    pub user_agent: Option<String>,
    pub referer: Option<String>,
    pub headers: Option<String>,
    pub proxy: Option<String>,
    pub max_download_limit: Option<String>,
}

/// Outcome of a command over many ids.
#[derive(Debug, Clone)]
pub struct BatchCommandResult {
    pub requested: usize,
    pub succeeded_gids: Vec<String>,
    pub failed_gids: Vec<String>,
    pub partial: bool,
}

/// Value of one worker option.
#[derive(Debug, Clone)]
pub enum OptionValue {
    Text(String),
    List(Vec<String>),
}

/// One worker option, such as `dir` or `header`.
#[derive(Debug, Clone)]
pub struct Aria2Option {
    pub key: String,
    pub value: OptionValue,
}

pub ghost enum ValueModel {
    Text(Seq<char>),
    List(Seq<Seq<char>>),
}

pub open spec fn option_model(o: Aria2Option) -> (Seq<char>, ValueModel) {
    (o.key@, match o.value {
        OptionValue::Text(s) => ValueModel::Text(s@),
        OptionValue::List(v) => ValueModel::List(strings_view(v@)),
    })
}

pub open spec fn option_models(v: Seq<Aria2Option>) -> Seq<(Seq<char>, ValueModel)> {
    v.map_values(|o: Aria2Option| option_model(o))
}

/// `opts` with `key = v` added when `v` is given and not empty.
pub open spec fn with_text(opts: Seq<(Seq<char>, ValueModel)>, key: Seq<char>, v: Option<Seq<char>>) -> Seq<(Seq<char>, ValueModel)> {
    match v {
        Some(t) => if t.len() > 0 {
            opts.push((key, ValueModel::Text(t)))
        } else {
            opts
        },
        None => opts,
    }
}

/// `opts` with the header list added when it is not empty.
pub open spec fn with_list(opts: Seq<(Seq<char>, ValueModel)>, key: Seq<char>, v: Seq<Seq<char>>) -> Seq<(Seq<char>, ValueModel)> {
    if v.len() > 0 {
        opts.push((key, ValueModel::List(v)))
    } else {
        opts
    }
}

/// Worker options of a download request, with `~` read against `home`.
pub open spec fn request_options(
    save_path: Option<Seq<char>>,
    filename: Option<Seq<char>>,
    user_agent: Option<Seq<char>>,
    referer: Option<Seq<char>>,
    headers: Option<Seq<char>>,
    proxy: Option<Seq<char>>,
    limit: Option<Seq<char>>,
    home: Option<Seq<char>>,
) -> Seq<(Seq<char>, ValueModel)> {
    let o0: Seq<(Seq<char>, ValueModel)> = match save_path {
        Some(d) => seq![("dir"@, ValueModel::Text(resolved_with(d, home)))],
        None => Seq::empty(),
    };
    let o1 = with_text(o0, "out"@, filename);
    let o2 = with_text(o1, "user-agent"@, user_agent);
    let o3 = with_text(o2, "referer"@, referer);
    let o4 = with_list(o3, "header"@, match headers {
        Some(h) => header_items(h),
        None => Seq::empty(),
    });
    let o5 = with_text(o4, "all-proxy"@, proxy);
    with_text(o5, "max-download-limit"@, limit)
}

fn push_text(opts: &mut Vec<Aria2Option>, key: &str, v: &Option<String>)
    ensures
        option_models(final(opts)@) == with_text(option_models(old(opts)@), key@, opt_view(*v)),
{
    match v {
        Some(t) => {
            if t.unicode_len() > 0 {
                let ghost before = opts@;
                opts.push(Aria2Option { key: String::from_str(key), value: OptionValue::Text(t.clone()) });
                assert(option_models(opts@) =~= option_models(before).push((key@, ValueModel::Text(t@))));
            }
        },
        None => {},
    }
}

fn push_list(opts: &mut Vec<Aria2Option>, key: &str, v: Vec<String>)
    ensures
        option_models(final(opts)@) == with_list(option_models(old(opts)@), key@, strings_view(v@)),
{
    if v.len() > 0 {
        let ghost before = opts@;
        let ghost vv = strings_view(v@);
        opts.push(Aria2Option { key: String::from_str(key), value: OptionValue::List(v) });
        assert(option_models(opts@) =~= option_models(before).push((key@, ValueModel::List(vv))));
    } else {
        assert(strings_view(v@).len() == 0);
    }
}

/// Worker options of a download request, with `~` read against `home`; also returns the
/// resolved folder (empty when none was asked for).
pub fn build_aria2_options_with_home(
    save_path: Option<String>,
    filename: Option<String>,
    user_agent: Option<String>,
    referer: Option<String>,
    headers: Option<String>,
    proxy: Option<String>,
    max_download_limit: Option<String>,
    home: Option<String>,
) -> (r: (Vec<Aria2Option>, String))
    ensures
        option_models(r.0@) == request_options(
            opt_view(save_path),
            opt_view(filename),
            opt_view(user_agent),
            opt_view(referer),
            opt_view(headers),
            opt_view(proxy),
            opt_view(max_download_limit),
            opt_view(home),
        ),
        r.1@ == match save_path {
            Some(d) => resolved_with(d@, opt_view(home)),
            None => Seq::empty(),
        },
{
    proof {
        reveal_strlit("dir");
        reveal_strlit("out");
        reveal_strlit("user-agent");
        reveal_strlit("referer");
        reveal_strlit("header");
        reveal_strlit("all-proxy");
        reveal_strlit("max-download-limit");
    }
    let mut opts: Vec<Aria2Option> = Vec::new();
    let dir = match &save_path {
        Some(d) => {
            let p = resolve_path_with_home(d.as_str(), home);
            opts.push(Aria2Option { key: String::from_str("dir"), value: OptionValue::Text(p.clone()) });
            p
        },
        None => String::new(),
    };
    let ghost o0 = option_models(opts@);
    assert(o0 =~= match opt_view(save_path) {
        Some(d) => seq![("dir"@, ValueModel::Text(resolved_with(d, opt_view(home))))],
        None => Seq::<(Seq<char>, ValueModel)>::empty(),
    });
    push_text(&mut opts, "out", &filename);
    push_text(&mut opts, "user-agent", &user_agent);
    push_text(&mut opts, "referer", &referer);
    let items = match &headers {
        Some(h) => split_headers(h.as_str()),
        None => Vec::new(),
    };
    proof {
        if headers is None {
            assert(strings_view(items@) =~= Seq::<Seq<char>>::empty());
        }
    }
    push_list(&mut opts, "header", items);
    push_text(&mut opts, "all-proxy", &proxy);
    push_text(&mut opts, "max-download-limit", &max_download_limit);
    (opts, dir)
}

/// Worker options of a download request, with `~` read against the home folder of the
/// current user; also returns the resolved folder (empty when none was asked for).
pub fn build_aria2_options(
    save_path: Option<String>,
    filename: Option<String>,
    user_agent: Option<String>,
    referer: Option<String>,
    headers: Option<String>,
    proxy: Option<String>,
    max_download_limit: Option<String>,
) -> (r: (Vec<Aria2Option>, String))
    ensures
        exists|home: Option<Seq<char>>| #[trigger] request_options(
            opt_view(save_path),
            opt_view(filename),
            opt_view(user_agent),
            opt_view(referer),
            opt_view(headers),
            opt_view(proxy),
            opt_view(max_download_limit),
            home,
        ) == option_models(r.0@),
{
    let home = home_folder();
    let ghost h = opt_view(home);
    let r = build_aria2_options_with_home(save_path, filename, user_agent, referer, headers, proxy, max_download_limit, home);
    assert(request_options(
        opt_view(save_path),
        opt_view(filename),
        opt_view(user_agent),
        opt_view(referer),
        opt_view(headers),
        opt_view(proxy),
        opt_view(max_download_limit),
        h,
    ) == option_models(r.0@));
    r
}

pub open spec fn or_empty(o: Option<Seq<char>>) -> Seq<char> {
    match o {
        Some(s) => s,
        None => Seq::empty(),
    }
}

/// The ledger record of a freshly submitted download.
pub open spec fn new_record(
    gid: Seq<char>,
    filename: Seq<char>,
    url: Seq<char>,
    save_path: Seq<char>,
    user_agent: Option<Seq<char>>,
    referer: Option<Seq<char>>,
    headers: Option<Seq<char>>,
    proxy: Option<Seq<char>>,
    limit: Option<Seq<char>>,
    now: i64,
) -> TaskRecord {
    TaskRecord {
        gid,
        filename,
        url,
        save_path,
        added_at: now,
        state: TaskState::Waiting,
        total_length: 0,
        completed_length: 0,
        download_speed: 0,
        completed_at: None,
        error_message: Seq::empty(),
        user_agent: or_empty(user_agent),
        referer: or_empty(referer),
        proxy: or_empty(proxy),
        headers: header_items(or_empty(headers)),
        max_download_limit: or_empty(limit),
        select_file: None,
        trackers: None,
    }
}

fn text_or_empty(o: &Option<String>) -> (r: String)
    ensures
        r@ == or_empty(opt_view(*o)),
{
    match o {
        Some(s) => s.clone(),
        None => String::new(),
    }
}

/// The ledger record of a download that the worker accepted under `gid`, added at `now`.
pub fn create_persisted_task(
    gid: String,
    filename: String,
    url: String,
    save_path: String,
    cfg: &DownloadConfig,
    now: i64,
) -> (t: PersistedTask)
    ensures
        t@ == new_record(
            gid@,
            filename@,
            url@,
            save_path@,
            opt_view(cfg.user_agent),
            opt_view(cfg.referer),
            opt_view(cfg.headers),
            opt_view(cfg.proxy),
            opt_view(cfg.max_download_limit),
            now,
        ),
{
    let hs = text_or_empty(&cfg.headers);
    PersistedTask {
        gid,
        filename,
        url,
        save_path,
        added_at: now,
        state: TaskState::Waiting,
        total_length: 0,
        completed_length: 0,
        download_speed: 0,
        completed_at: None,
        error_message: String::new(),
        user_agent: text_or_empty(&cfg.user_agent),
        referer: text_or_empty(&cfg.referer),
        proxy: text_or_empty(&cfg.proxy),
        headers: split_headers(hs.as_str()),
        max_download_limit: text_or_empty(&cfg.max_download_limit),
        select_file: None,
        trackers: None,
    }
}

/// Whether one id of a batch failed: a call for it went wrong for another reason than
/// the worker not knowing the id.
pub open spec fn item_failed(cancel: Option<AppError>, purge: Option<AppError>) -> bool {
    (cancel matches Some(e) && !e.spec_is_not_found()) || (purge matches Some(e) && !e.spec_is_not_found())
}

/// The ids of `gs` whose flag is `want`, in order.
pub open spec fn picked(gs: Seq<Seq<char>>, flags: Seq<bool>, want: bool) -> Seq<Seq<char>>
    decreases gs.len(),
{
    if gs.len() == 0 || flags.len() == 0 {
        Seq::empty()
    } else {
        let p = picked(gs.drop_last(), flags.drop_last(), want);
        if flags.last() == want {
            p.push(gs.last())
        } else {
            p
        }
    }
}

pub open spec fn failure_flags(cancel: Seq<Option<AppError>>, purge: Seq<Option<AppError>>) -> Seq<bool> {
    Seq::new(cancel.len(), |i: int| item_failed(cancel[i], purge[i]))
}

/// Sorts the ids of a batch by the outcome of their calls: `cancel[i]` and `purge[i]`
/// are the errors, if any, of the calls for `gids[i]`.
pub fn partition_batch(gids: &Vec<String>, cancel: &Vec<Option<AppError>>, purge: &Vec<Option<AppError>>) -> (r: BatchCommandResult)
    requires
        cancel@.len() == gids@.len(),
        purge@.len() == gids@.len(),
    ensures
        r.requested == gids@.len(),
        strings_view(r.succeeded_gids@) == picked(strings_view(gids@), failure_flags(cancel@, purge@), false),
        strings_view(r.failed_gids@) == picked(strings_view(gids@), failure_flags(cancel@, purge@), true),
        r.partial == (r.succeeded_gids@.len() > 0 && r.failed_gids@.len() > 0),
{
    let ghost fl = failure_flags(cancel@, purge@);
    let ghost gs = strings_view(gids@);
    let mut ok: Vec<String> = Vec::new();
    let mut bad: Vec<String> = Vec::new();
    let mut i: usize = 0;
    while i < gids.len()
        invariant
            cancel@.len() == gids@.len(),
            purge@.len() == gids@.len(),
            fl == failure_flags(cancel@, purge@),
            gs == strings_view(gids@),
            i <= gids@.len(),
            strings_view(ok@) == picked(gs.subrange(0, i as int), fl.subrange(0, i as int), false),
            strings_view(bad@) == picked(gs.subrange(0, i as int), fl.subrange(0, i as int), true),
        decreases gids@.len() - i,
    {
        assert(gs.subrange(0, i + 1).drop_last() =~= gs.subrange(0, i as int));
        assert(fl.subrange(0, i + 1).drop_last() =~= fl.subrange(0, i as int));
        let c_failed = match &cancel[i] {
            Some(e) => !e.is_aria2_not_found(),
            None => false,
        };
        let p_failed = match &purge[i] {
            Some(e) => !e.is_aria2_not_found(),
            None => false,
        };
        assert((c_failed || p_failed) == fl[i as int]);
        if c_failed || p_failed {
            let ghost before = bad@;
            bad.push(gids[i].clone());
            assert(strings_view(bad@) =~= strings_view(before).push(gs[i as int]));
        } else {
            let ghost before = ok@;
            ok.push(gids[i].clone());
            assert(strings_view(ok@) =~= strings_view(before).push(gs[i as int]));
        }
        i += 1;
    }
    assert(gs.subrange(0, i as int) =~= gs);
    assert(fl.subrange(0, i as int) =~= fl);
    let partial = ok.len() > 0 && bad.len() > 0;
    BatchCommandResult { requested: gids.len(), succeeded_gids: ok, failed_gids: bad, partial }
}

/// Whether a resume command resubmits the task from its record instead of asking the
/// worker: the task is tracked and its state is terminal.
pub fn should_smart_resume(task: &Option<PersistedTask>) -> (r: bool)
    ensures
        r == (task matches Some(t) && t.state.spec_is_terminal()),
{
    match task {
        Some(t) => t.state.is_terminal(),
        None => false,
    }
}

/// How a task is submitted again.
#[derive(Debug, Clone)]
pub enum Resubmission {
    /// Fetch from the source URL.
    Uri { url: String },
    /// Read the local torrent file at `path`.
    Torrent { path: String },
}

pub open spec fn resubmission_model(r: Resubmission) -> (bool, Seq<char>) {
    match r {
        Resubmission::Uri { url } => (false, url@),
        Resubmission::Torrent { path } => (true, path@),
    }
}

/// Where a record's source lies: after `file://` a local torrent, else a URL.
pub open spec fn source_of(url: Seq<char>) -> (bool, Seq<char>) {
    if url.len() >= 7 && url.subrange(0, 7) == "file://"@ {
        (true, url.subrange(7, url.len() as int))
    } else {
        (false, url)
    }
}

/// The source to submit again for a stored task.
pub fn resubmission_of(task: &PersistedTask) -> (r: Resubmission)
    ensures
        resubmission_model(r) == source_of(task.url@),
{
    proof {
        reveal_strlit("file://");
    }
    let n = task.url.unicode_len();
    if n >= 7 && crate::state::str_equal(task.url.as_str().substring_char(0, 7), "file://") {
        Resubmission::Torrent { path: String::from_str(task.url.as_str().substring_char(7, n)) }
    } else {
        Resubmission::Uri { url: task.url.clone() }
    }
}

/// The present form of an optional text field: `None` when empty.
pub open spec fn given(s: Seq<char>) -> Option<Seq<char>> {
    if s.len() > 0 {
        Some(s)
    } else {
        None
    }
}

fn given_text(s: &String) -> (r: Option<String>)
    ensures
        opt_view(r) == given(s@),
{
    if s.unicode_len() > 0 {
        Some(s.clone())
    } else {
        None
    }
}

/// Worker options to submit a stored task again, from its retry context, with `~` read
/// against `home`; a torrent's file selection is passed on.
pub open spec fn resubmit_options(r: TaskRecord, home: Option<Seq<char>>) -> Seq<(Seq<char>, ValueModel)> {
    let o0: Seq<(Seq<char>, ValueModel)> = if r.save_path.len() > 0 {
        seq![("dir"@, ValueModel::Text(resolved_with(r.save_path, home)))]
    } else {
        Seq::empty()
    };
    let o1 = with_text(o0, "out"@, given(r.filename));
    let o2 = with_text(o1, "user-agent"@, given(r.user_agent));
    let o3 = with_text(o2, "referer"@, given(r.referer));
    let o4 = with_list(o3, "header"@, r.headers);
    let o5 = with_text(o4, "all-proxy"@, given(r.proxy));
    let o6 = with_text(o5, "max-download-limit"@, given(r.max_download_limit));
    with_text(o6, "select-file"@, r.select_file)
}

/// Worker options to submit a stored task again, with `~` read against `home`.
pub fn resubmit_options_with_home(task: &PersistedTask, home: Option<String>) -> (r: Vec<Aria2Option>)
    ensures
        option_models(r@) == resubmit_options(task@, opt_view(home)),
{
    proof {
        reveal_strlit("dir");
        reveal_strlit("out");
        reveal_strlit("user-agent");
        reveal_strlit("referer");
        reveal_strlit("header");
        reveal_strlit("all-proxy");
        reveal_strlit("max-download-limit");
        reveal_strlit("select-file");
    }
    let mut opts: Vec<Aria2Option> = Vec::new();
    if task.save_path.unicode_len() > 0 {
        let p = resolve_path_with_home(task.save_path.as_str(), home);
        opts.push(Aria2Option { key: String::from_str("dir"), value: OptionValue::Text(p) });
    }
    assert(option_models(opts@) =~= (if task@.save_path.len() > 0 {
        seq![("dir"@, ValueModel::Text(resolved_with(task@.save_path, opt_view(home))))]
    } else {
        Seq::<(Seq<char>, ValueModel)>::empty()
    }));
    push_text(&mut opts, "out", &given_text(&task.filename));
    push_text(&mut opts, "user-agent", &given_text(&task.user_agent));
    push_text(&mut opts, "referer", &given_text(&task.referer));
    push_list(&mut opts, "header", clone_strings(&task.headers));
    push_text(&mut opts, "all-proxy", &given_text(&task.proxy));
    push_text(&mut opts, "max-download-limit", &given_text(&task.max_download_limit));
    push_text(&mut opts, "select-file", &clone_opt(&task.select_file));
    opts
}

/// Rejects a request whose URLs are not all http, https, ftp or ftps.
pub fn check_urls(urls: &Vec<String>) -> (r: Result<(), AppError>)
    ensures
        r is Ok <==> forall|i: int| 0 <= i < urls@.len() ==> url_ok(#[trigger] urls@[i]@),
        r matches Err(e) ==> e is Validation,
{
    let mut i: usize = 0;
    while i < urls.len()
        invariant
            i <= urls@.len(),
            forall|k: int| 0 <= k < i ==> url_ok(#[trigger] urls@[k]@),
        decreases urls@.len() - i,
    {
        if !is_valid_url(urls[i].as_str()) {
            let mut msg = String::from_str("invalid URL: ");
            msg.append(urls[i].as_str());
            return Err(AppError::Validation(msg));
        }
        i += 1;
    }
    Ok(())
}

/// Standard base64 text (with padding) of some bytes.
pub uninterp spec fn base64_of(b: Seq<u8>) -> Seq<char>;

/// Relies on base64's `STANDARD.encode`: the standard alphabet with padding, which depends
/// on the bytes alone and gives four characters for every three bytes or part of them.
/// It panics only when that length overflows, which the bound rules out.
#[verifier::external_body]
fn encode_base64(b: &Vec<u8>) -> (r: String)
    requires
        b@.len() <= MAX_TORRENT_BYTES,
    ensures
        r@ == base64_of(b@),
        r@.len() == 4 * ((b@.len() + 2) / 3),
{
    base64::Engine::encode(&base64::engine::general_purpose::STANDARD, b)
}

/// A torrent ready to hand to the worker.
#[derive(Debug, Clone)]
pub struct TorrentSubmission {
    /// The torrent file in base64.
    pub payload: String,
    pub options: Vec<Aria2Option>,
    /// The name the ledger shows: the torrent file's own name.
    pub filename: String,
    /// The source the ledger keeps: `file://` and the torrent's path.
    pub url: String,
    pub save_path: String,
}

/// Prepares the submission of the torrent file at `path` whose bytes are `content`,
/// with the settings of `base`, the optional file selection `select_file`, and `~` read
/// against `home`. Refuses a file larger than the torrent limit.
pub fn torrent_submission(
    content: &Vec<u8>,
    path: &str,
    base: &DownloadConfig,
    select_file: Option<String>,
    home: Option<String>,
) -> (r: Result<TorrentSubmission, AppError>)
    ensures
        r is Ok <==> content@.len() <= MAX_TORRENT_BYTES,
        r matches Err(e) ==> e is Validation,
        r matches Ok(t) ==> t.payload@ == base64_of(content@) && option_models(t.options@) == with_text(
            request_options(
                opt_view(base.save_path),
                None,
                opt_view(base.user_agent),
                opt_view(base.referer),
                opt_view(base.headers),
                opt_view(base.proxy),
                opt_view(base.max_download_limit),
                opt_view(home),
            ),
            "select-file"@,
            opt_view(select_file),
        ) && t.filename@ == last_component(path@) && t.url@ == "file://"@ + path@ && t.save_path@ == match base.save_path {
            Some(d) => resolved_with(d@, opt_view(home)),
            None => Seq::empty(),
        },
{
    proof {
        reveal_strlit("file://");
    }
    if content.len() as u64 > MAX_TORRENT_BYTES {
        return Err(AppError::Validation(String::from_str("file too large for a torrent")));
    }
    let payload = encode_base64(content);
    let (mut options, save_path) = build_aria2_options_with_home(
        clone_opt(&base.save_path),
        None,
        clone_opt(&base.user_agent),
        clone_opt(&base.referer),
        clone_opt(&base.headers),
        clone_opt(&base.proxy),
        clone_opt(&base.max_download_limit),
        home,
    );
    push_text(&mut options, "select-file", &select_file);
    let mut url = String::from_str("file://");
    url.append(path);
    Ok(TorrentSubmission { payload, options, filename: last_component_of(path), url, save_path })
}

/// A file name that is safe to delete inside a download folder: not empty, not `.` or
/// `..`, and without separators or NUL.
pub open spec fn safe_filename(f: Seq<char>) -> bool {
    f.len() > 0 && f != "."@ && f != ".."@ && forall|i: int| 0 <= i < f.len() ==> (#[trigger] f[i]) != '/' && f[i]
        != '\\' && f[i] != '\0'
}

pub fn is_safe_filename(f: &str) -> (r: bool)
    ensures
        r == safe_filename(f@),
{
    proof {
        reveal_strlit(".");
        reveal_strlit("..");
    }
    let n = f.unicode_len();
    if n == 0 || crate::state::str_equal(f, ".") || crate::state::str_equal(f, "..") {
        return false;
    }
    let mut i: usize = 0;
    while i < n
        invariant
            n == f@.len(),
            i <= n,
            forall|k: int| 0 <= k < i ==> (#[trigger] f@[k]) != '/' && f@[k] != '\\' && f@[k] != '\0',
        decreases n - i,
    {
        let c = f.get_char(i);
        if c == '/' || c == '\\' || c == '\0' {
            return false;
        }
        i += 1;
    }
    true
}

pub open spec fn text_entry(key: Seq<char>, v: Seq<char>) -> (Seq<char>, ValueModel) {
    (key, ValueModel::Text(v))
}

pub open spec fn or_zero(v: Seq<char>) -> Seq<char> {
    if v.len() > 0 {
        v
    } else {
        "0"@
    }
}

/// Options that bring a running worker in line with changed settings; `download_limit`
/// is the global download cap (empty for none).
pub open spec fn global_options(c: WorkerConfig, download_limit: Seq<char>) -> Seq<(Seq<char>, ValueModel)> {
    let head = seq![
        text_entry("max-concurrent-downloads"@, decimal(c.max_concurrent_downloads as nat)),
        text_entry("max-download-limit"@, or_zero(download_limit)),
        text_entry("max-overall-upload-limit"@, or_zero(c.global_max_upload_limit@)),
    ];
    let with_trackers = if c.bt_trackers@.len() > 0 {
        head.push(text_entry("bt-tracker"@, c.bt_trackers@))
    } else {
        head
    };
    with_trackers + seq![
        text_entry("enable-dht"@, bool_word(c.enable_dht)),
        text_entry("enable-peer-exchange"@, bool_word(c.enable_peer_exchange)),
        text_entry("seed-ratio"@, c.seed_ratio@),
        text_entry("seed-time"@, if c.enable_seeding { "999999999"@ } else { "0"@ }),
        text_entry("dht-listen-port"@, c.dht_listen_port@),
        text_entry("listen-port"@, c.listen_port@),
    ]
}

fn text_option(key: &str, v: String) -> (r: Aria2Option)
    ensures
        option_model(r) == text_entry(key@, v@),
{
    Aria2Option { key: String::from_str(key), value: OptionValue::Text(v) }
}

fn text_or_zero(v: &String) -> (r: String)
    ensures
        r@ == or_zero(v@),
{
    proof {
        reveal_strlit("0");
    }
    if v.unicode_len() > 0 {
        v.clone()
    } else {
        String::from_str("0")
    }
}

/// Options that bring a running worker in line with changed settings; see
/// [`global_options`].
pub fn build_global_options(c: &WorkerConfig, download_limit: &String) -> (r: Vec<Aria2Option>)
    ensures
        option_models(r@) == global_options(*c, download_limit@),
{
    proof {
        reveal_strlit("max-concurrent-downloads");
        reveal_strlit("max-download-limit");
        reveal_strlit("max-overall-upload-limit");
        reveal_strlit("bt-tracker");
        reveal_strlit("enable-dht");
        reveal_strlit("enable-peer-exchange");
        reveal_strlit("seed-ratio");
        reveal_strlit("seed-time");
        reveal_strlit("dht-listen-port");
        reveal_strlit("listen-port");
        reveal_strlit("999999999");
        reveal_strlit("0");
        reveal_strlit("true");
        reveal_strlit("false");
    }
    let mut r: Vec<Aria2Option> = Vec::new();
    r.push(text_option("max-concurrent-downloads", decimal_string(c.max_concurrent_downloads as u64)));
    r.push(text_option("max-download-limit", text_or_zero(download_limit)));
    r.push(text_option("max-overall-upload-limit", text_or_zero(&c.global_max_upload_limit)));
    if c.bt_trackers.unicode_len() > 0 {
        r.push(text_option("bt-tracker", c.bt_trackers.clone()));
    }
    r.push(text_option("enable-dht", String::from_str(if c.enable_dht { "true" } else { "false" })));
    r.push(text_option("enable-peer-exchange", String::from_str(if c.enable_peer_exchange { "true" } else { "false" })));
    r.push(text_option("seed-ratio", c.seed_ratio.clone()));
    r.push(text_option("seed-time", String::from_str(if c.enable_seeding { "999999999" } else { "0" })));
    r.push(text_option("dht-listen-port", c.dht_listen_port.clone()));
    r.push(text_option("listen-port", c.listen_port.clone()));
    assert(option_models(r@) =~= global_options(*c, download_limit@));
    r
}

} // verus!
