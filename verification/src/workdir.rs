//! Working directories: paths as text, the directories of standalone chats, and which
//! directory of a thread stands for a project.
use vstd::prelude::*;
use vstd::utf8::*;

use crate::app_server::requests;
use crate::app_server::requests::RequestIds;
use crate::text;

verus! {

/// A path of this host.
#[derive(Debug, Clone, PartialEq, Eq)]
pub struct HostPath {
    /// The path, or a readable form of one that is no Unicode text.
    pub text: String,
    /// The path as the host holds it, where it is no Unicode text.
    pub raw: Option<Vec<u8>>,
}

/// What a `HostPath` says.
#[verifier::ext_equal]
pub struct PathModel {
    pub text: Seq<char>,
    pub raw: Option<Seq<u8>>,
}

/// The view of optional bytes.
pub open spec fn opt_bytes(raw: Option<Vec<u8>>) -> Option<Seq<u8>> {
    match raw {
        Some(raw) => Some(raw@),
        None => None,
    }
}

impl View for HostPath {
    type V = PathModel;

    open spec fn view(&self) -> PathModel {
        PathModel { text: self.text@, raw: opt_bytes(self.raw) }
    }
}

impl PathModel {
    /// Whether the path is Unicode text.
    pub open spec fn is_text(self) -> bool {
        self.raw is None
    }

    /// The bytes of the path, as the host holds it.
    pub open spec fn bytes(self) -> Seq<u8> {
        match self.raw {
            Some(raw) => raw,
            None => encode_utf8(self.text),
        }
    }
}

/// The path that a text is.
pub open spec fn path_of(path: Seq<char>) -> PathModel {
    PathModel { text: path, raw: None }
}

/// The view of an optional path.
pub open spec fn opt_path(path: Option<HostPath>) -> Option<PathModel> {
    match path {
        Some(path) => Some(path@),
        None => None,
    }
}

/// The view of an outcome that is a path or a message.
pub open spec fn result_path(res: Result<HostPath, String>) -> Result<PathModel, Seq<char>> {
    match res {
        Ok(path) => Ok(path@),
        Err(message) => Err(message@),
    }
}

/// The path `base` with one relative step more.
pub open spec fn path_join(base: Seq<char>, step: Seq<char>) -> Seq<char> {
    if base.len() == 0 || base.last() == '/' {
        base + step
    } else {
        base.push('/') + step
    }
}

/// The bytes of a path with one relative step more.
pub open spec fn bytes_join(base: Seq<u8>, step: Seq<char>) -> Seq<u8> {
    if base.len() == 0 || base.last() == 0x2f {
        base + encode_utf8(step)
    } else {
        base.push(0x2f) + encode_utf8(step)
    }
}

/// A path of this host with one relative step more.
pub open spec fn host_join(base: PathModel, step: Seq<char>) -> PathModel {
    PathModel {
        text: path_join(base.text, step),
        raw: match base.raw {
            Some(raw) => Some(bytes_join(raw, step)),
            None => None,
        },
    }
}

/// Whether a piece between slashes is a step of its own.
pub open spec fn is_step(piece: Seq<char>) -> bool {
    piece.len() > 0 && piece != "."@
}

/// The steps of a path, `..` among them: empty pieces and `.` say nothing.
pub open spec fn path_steps(path: Seq<char>) -> Seq<Seq<char>> {
    text::split(path, '/').filter(|piece: Seq<char>| is_step(piece))
}

/// Whether a path begins at the root.
pub open spec fn is_rooted(path: Seq<char>) -> bool {
    path.len() > 0 && path[0] == '/'
}

/// Whether a path begins with a step `.`.
pub open spec fn begins_here(path: Seq<char>) -> bool {
    text::split(path, '/')[0] == "."@
}

/// Whether two paths are the same, step by step.
pub open spec fn same_path(a: Seq<char>, b: Seq<char>) -> bool {
    &&& is_rooted(a) == is_rooted(b)
    &&& begins_here(a) == begins_here(b)
    &&& path_steps(a) == path_steps(b)
}

/// The names on a path: its steps without `..`.
pub open spec fn path_names(path: Seq<char>) -> Seq<Seq<char>> {
    text::split(path, '/').filter(|piece: Seq<char>| is_step(piece) && piece != ".."@)
}

/// Whether `c` is a decimal digit.
pub open spec fn is_digit(c: char) -> bool {
    '0' <= c <= '9'
}

/// Whether `s` has the form of a date, such as `2026-05-01`.
pub open spec fn iso_date(s: Seq<char>) -> bool {
    &&& s.len() == 10
    &&& forall|i: int|
        0 <= i < 10 ==> if i == 4 || i == 7 {
            #[trigger] s[i] == '-'
        } else {
            is_digit(s[i])
        }
}

/// Whether `path` is a directory of a chat: `<documents>/Codex/<date>/<name>`, where
/// `Documents` stands on the path only once before the name.
pub open spec fn chat_cwd(path: Seq<char>) -> bool {
    let names = path_names(path);
    let at = names.len() - 4;
    &&& at >= 0
    &&& names[at] == "Documents"@
    &&& names[at + 1] == "Codex"@
    &&& iso_date(names[at + 2])
    &&& forall|i: int| 0 <= i < at ==> #[trigger] names[i] != "Documents"@
}

/// The pieces of `path` that are steps, `..` among them if `up` is set.
fn kept_pieces(path: &str, up: bool) -> (res: Vec<String>)
    ensures
        text::texts(res@) == if up {
            path_steps(path@)
        } else {
            path_names(path@)
        },
{
    let pieces = text::pieces(path, '/');
    let ghost all = text::split(path@, '/');
    let ghost keep = |piece: Seq<char>| is_step(piece) && (up || piece != ".."@);
    let mut res: Vec<String> = Vec::new();
    let mut i: usize = 0;
    assert(text::texts(pieces@).take(0).filter(keep) =~= Seq::<Seq<char>>::empty()) by {
        reveal(Seq::filter);
    }
    assert(text::texts(res@) =~= Seq::<Seq<char>>::empty());
    while i < pieces.len()
        invariant
            i <= pieces@.len(),
            text::texts(pieces@) == all,
            keep == (|piece: Seq<char>| is_step(piece) && (up || piece != ".."@)),
            text::texts(res@) == all.take(i as int).filter(keep),
        decreases pieces.len() - i,
    {
        let piece = pieces[i].as_str();
        let kept = !piece.is_empty() && !text::eq(piece, ".") && (up || !text::eq(piece, ".."));
        proof {
            assert(all[i as int] == pieces@[i as int]@);
            assert(all.take(i + 1).drop_last() =~= all.take(i as int));
            assert(all.take(i + 1).last() == all[i as int]);
            reveal(Seq::filter);
        }
        if kept {
            let ghost before = res@;
            res.push(piece.to_owned());
            assert(text::texts(res@) =~= text::texts(before).push(all[i as int]));
        }
        i += 1;
    }
    proof {
        assert(all.take(all.len() as int) =~= all);
        if up {
            assert(keep =~= |piece: Seq<char>| is_step(piece));
        } else {
            assert(keep =~= |piece: Seq<char>| is_step(piece) && piece != ".."@);
        }
    }
    res
}

/// The names on a path.
pub fn path_components(value: &str) -> (res: Vec<String>)
    ensures
        text::texts(res@) == path_names(value@),
{
    kept_pieces(value, false)
}

/// Tells whether two lists of texts are the same.
fn same_texts(a: &Vec<String>, b: &Vec<String>) -> (res: bool)
    ensures
        res == (text::texts(a@) == text::texts(b@)),
{
    if a.len() != b.len() {
        assert(text::texts(a@).len() != text::texts(b@).len());
        return false;
    }
    let mut i: usize = 0;
    while i < a.len()
        invariant
            i <= a@.len(),
            a@.len() == b@.len(),
            forall|k: int| 0 <= k < i ==> (#[trigger] a@[k])@ == b@[k]@,
        decreases a.len() - i,
    {
        if !text::eq(a[i].as_str(), b[i].as_str()) {
            assert(text::texts(a@)[i as int] != text::texts(b@)[i as int]);
            return false;
        }
        i += 1;
    }
    assert(text::texts(a@) =~= text::texts(b@));
    true
}

/// Tells whether `value` begins at the root.
fn rooted(value: &str) -> (res: bool)
    ensures
        res == is_rooted(value@),
{
    let found = text::begins_with(value, "/");
    proof {
        reveal_strlit("/");
        assert("/"@ =~= seq!['/']);
        if value@.len() > 0 {
            assert(value@.take(1) =~= seq![value@[0]]);
        }
        if found {
            assert(value@.take(1)[0] == value@[0]);
        }
        if value@.len() > 0 && value@[0] == '/' {
            assert(value@.take(1) =~= "/"@);
        }
    }
    found
}

/// Tells whether `value` begins with a step `.`.
fn here(value: &str) -> (res: bool)
    ensures
        res == begins_here(value@),
{
    let pieces = text::pieces(value, '/');
    proof {
        text::lemma_split_nonempty(value@, '/');
        assert(text::texts(pieces@)[0] == pieces@[0]@);
    }
    text::eq(pieces[0].as_str(), ".")
}

/// Tells whether the text `left` is the path `right`.
pub fn paths_equal(left: &str, right: &HostPath) -> (res: bool)
    ensures
        res == (right@.is_text() && same_path(left@, right@.text)),
{
    right.raw.is_none() && rooted(left) == rooted(right.text.as_str()) && here(left) == here(
        right.text.as_str(),
    ) && same_texts(&kept_pieces(left, true), &kept_pieces(right.text.as_str(), true))
}

/// Tells whether `value` has the form of a date.
pub fn is_iso_date(value: &str) -> (res: bool)
    ensures
        res == iso_date(value@),
{
    let cs = text::chars_of(value);
    if cs.len() != 10 {
        return false;
    }
    let mut i: usize = 0;
    while i < 10
        invariant
            i <= 10,
            cs@ == value@,
            cs@.len() == 10,
            forall|k: int|
                0 <= k < i ==> if k == 4 || k == 7 {
                    #[trigger] cs@[k] == '-'
                } else {
                    is_digit(cs@[k])
                },
        decreases 10 - i,
    {
        let c = cs[i];
        let fits = if i == 4 || i == 7 {
            c == '-'
        } else {
            '0' <= c && c <= '9'
        };
        if !fits {
            assert(!iso_date(value@)) by {
                assert(value@[i as int] == c);
            }
            return false;
        }
        i += 1;
    }
    true
}

/// Tells whether `cwd` is a directory of a chat.
pub fn is_codex_desktop_chat_cwd(cwd: &str) -> (res: bool)
    ensures
        res == chat_cwd(cwd@),
{
    let names = path_components(cwd);
    let ghost views = path_names(cwd@);
    assert(forall|i: int| 0 <= i < names@.len() ==> views[i] == (#[trigger] names@[i])@);
    assert(views.len() == names@.len());
    if names.len() < 4 {
        return false;
    }
    let at = names.len() - 4;
    if !text::eq(names[at].as_str(), "Documents") || !text::eq(names[at + 1].as_str(), "Codex")
        || !is_iso_date(names[at + 2].as_str()) {
        return false;
    }
    let mut i: usize = 0;
    while i < at
        invariant
            i <= at,
            at == names@.len() - 4,
            views.len() == names@.len(),
            views == path_names(cwd@),
            forall|k: int| 0 <= k < names@.len() ==> views[k] == (#[trigger] names@[k])@,
            forall|k: int| 0 <= k < i ==> #[trigger] views[k] != "Documents"@,
        decreases at - i,
    {
        if text::eq(names[i].as_str(), "Documents") {
            assert(views[i as int] == "Documents"@);
            return false;
        }
        i += 1;
    }
    true
}

/// Whether `s` is a date as `%Y-%m-%d` writes it: before the year 0 and after the year 9999
/// the year has a sign and more places.
pub open spec fn date_text(s: Seq<char>) -> bool {
    &&& iso_date(s) || s.len() > 10
    &&& forall|i: int| 0 <= i < s.len() ==> is_digit(#[trigger] s[i]) || s[i] == '-' || s[i] == '+'
}

/// Whether `s` is a time of day as `%H%M%S%3f` writes it.
pub open spec fn time_text(s: Seq<char>) -> bool {
    s.len() == 9 && forall|i: int| 0 <= i < s.len() ==> is_digit(#[trigger] s[i])
}

/// `dirs::document_dir`: the documents directory of the user, where the host tells one.
///
/// Which directory that is depends on the host, so nothing is claimed of it.
#[verifier::external_body]
fn document_dir() -> (res: Option<HostPath>) {
    dirs::document_dir().map(
        |path| match path.into_os_string().into_string() {
            Ok(text) => HostPath { text, raw: None },
            Err(raw) => HostPath {
                text: raw.to_string_lossy().into_owned(),
                raw: Some(raw.into_encoded_bytes()),
            },
        },
    )
}

/// `dirs::home_dir`: the home directory of the user, where the host tells one.
///
/// Which directory that is depends on the host, so nothing is claimed of it.
#[verifier::external_body]
pub(crate) fn home_dir() -> (res: Option<HostPath>) {
    dirs::home_dir().map(
        |path| match path.into_os_string().into_string() {
            Ok(text) => HostPath { text, raw: None },
            Err(raw) => HostPath {
                text: raw.to_string_lossy().into_owned(),
                raw: Some(raw.into_encoded_bytes()),
            },
        },
    )
}

/// `chrono::Local::now`, formatted as a date and as a time of day.
///
/// The contract claims the forms that the two formats have at any time; which day and time
/// they tell depends on the clock.
#[verifier::external_body]
fn local_stamp() -> (res: (String, String))
    ensures
        date_text(res.0@),
        time_text(res.1@),
{
    let now = chrono::Local::now();
    (now.format("%Y-%m-%d").to_string(), now.format("%H%M%S%3f").to_string())
}

/// The name of the directory of a new chat.
pub open spec fn chat_dir_name(time: Seq<char>, id: u64) -> Seq<char> {
    "chat-"@ + time + "-"@ + text::decimal(id as nat)
}

/// The directory of a new chat, or why there is none.
pub open spec fn standalone_path(
    documents: Option<PathModel>,
    date: Seq<char>,
    time: Seq<char>,
    id: u64,
) -> Result<PathModel, Seq<char>> {
    match documents {
        Some(dir) => Ok(
            host_join(host_join(host_join(dir, "Codex"@), date), chat_dir_name(time, id)),
        ),
        None => Err("无法定位文稿目录"@),
    }
}

/// Whether `outcome` can come of asking for the directory of a new chat with the given id.
pub open spec fn standalone_outcome(outcome: Result<PathModel, Seq<char>>, id: u64) -> bool {
    exists|documents: Option<PathModel>, date: Seq<char>, time: Seq<char>|
        date_text(date) && time_text(time) && outcome == #[trigger] standalone_path(
            documents,
            date,
            time,
            id,
        )
}

/// The path `base` with one relative step more.
pub fn joined_path(base: &str, step: &str) -> (res: String)
    ensures
        res@ == path_join(base@, step@),
{
    let slash = text::finishes_with(base, "/");
    proof {
        reveal_strlit("/");
        assert("/"@ =~= seq!['/']);
        if base@.len() > 0 {
            assert(base@.skip(base@.len() - 1) =~= seq![base@.last()]);
            assert(base@.skip(base@.len() - 1)[0] == base@.last());
        }
        assert(base@ + "/"@ + step@ =~= base@.push('/') + step@);
    }
    if base.is_empty() || slash {
        text::cat(base, step)
    } else {
        text::cat3(base, "/", step)
    }
}

/// The bytes of a path with one relative step more.
fn joined_bytes(base: &Vec<u8>, step: &str) -> (res: Vec<u8>)
    ensures
        res@ == bytes_join(base@, step@),
{
    let more = step.as_bytes();
    let mut res: Vec<u8> = base.clone();
    if res.len() > 0 && res[res.len() - 1] != 0x2f {
        res.push(0x2f);
    }
    let ghost head = res@;
    let mut i: usize = 0;
    assert(head + more@.take(0) =~= head);
    while i < more.len()
        invariant
            i <= more@.len(),
            res@ == head + more@.take(i as int),
        decreases more.len() - i,
    {
        res.push(more[i]);
        i += 1;
        assert(more@.take(i as int) =~= more@.take(i - 1).push(more@[i - 1]));
    }
    assert(more@.take(more@.len() as int) =~= more@);
    res
}

impl HostPath {
    /// The path with one relative step more.
    pub fn join(&self, step: &str) -> (res: HostPath)
        ensures
            res@ == host_join(self@, step@),
    {
        HostPath {
            text: joined_path(self.text.as_str(), step),
            raw: match &self.raw {
                Some(raw) => Some(joined_bytes(raw, step)),
                None => None,
            },
        }
    }
}

/// The directory of a new chat in the given documents directory, at the given time.
pub fn standalone_cwd_in(documents: Option<HostPath>, date: &str, time: &str, id: u64) -> (res:
    Result<HostPath, String>)
    ensures
        result_path(res) == standalone_path(opt_path(documents), date@, time@, id),
{
    match documents {
        Some(dir) => {
            let name = text::cat3("chat-", time, "-");
            let name = text::cat(name.as_str(), text::u64_text(id).as_str());
            Ok(dir.join("Codex").join(date).join(name.as_str()))
        },
        None => Err("无法定位文稿目录".to_owned()),
    }
}

/// The directory of a new chat. Nothing is created.
pub fn standalone_cwd(ids: &mut RequestIds) -> (res: Result<HostPath, String>)
    ensures
        standalone_outcome(result_path(res), old(ids)@),
        final(ids)@ == requests::later_id(old(ids)@, 1),
{
    let (date, time) = local_stamp();
    let id = ids.take_id();
    let documents = document_dir();
    let ghost view = opt_path(documents);
    let res = standalone_cwd_in(documents, date.as_str(), time.as_str(), id);
    assert(result_path(res) == standalone_path(view, date@, time@, id));
    res
}

/// Whether `cwd` is a directory for standalone chats, given what asking for a new one gave.
pub open spec fn manager_standalone(
    cwd: Seq<char>,
    standalone: Result<PathModel, Seq<char>>,
) -> bool {
    match standalone {
        Ok(path) => {
            ||| path.is_text() && same_path(cwd, path.text)
            ||| text::has_part(cwd, "/Documents/Codex/"@) && chat_cwd(cwd)
            ||| text::has_suffix(cwd, "/Application Support/CodexManager/standalone"@)
            ||| text::has_suffix(cwd, "/ApplicationSupport/CodexManager/standalone"@)
        },
        Err(_) => false,
    }
}

/// Tells whether `cwd` is a directory for standalone chats.
pub fn is_manager_standalone_cwd(cwd: &str, standalone: &Result<HostPath, String>) -> (res: bool)
    ensures
        res == manager_standalone(cwd@, result_path(*standalone)),
{
    match standalone {
        Ok(path) => paths_equal(cwd, path) || (text::holds_part(cwd, "/Documents/Codex/")
            && is_codex_desktop_chat_cwd(cwd)) || text::finishes_with(
            cwd,
            "/Application Support/CodexManager/standalone",
        ) || text::finishes_with(cwd, "/ApplicationSupport/CodexManager/standalone"),
        Err(_) => false,
    }
}

/// A working directory as it is compared: without white space around it and slashes after it.
pub open spec fn bare_cwd(cwd: Seq<char>) -> Seq<char> {
    text::trim_end_char(text::trim(cwd), '/')
}

/// The project directory that a thread's working directory stands for: none where the
/// directory is empty or belongs to standalone chats.
pub open spec fn project_cwd(
    cwd: Option<Seq<char>>,
    standalone: Result<PathModel, Seq<char>>,
) -> Option<Seq<char>> {
    match cwd {
        Some(cwd) => {
            let bare = bare_cwd(cwd);
            if bare.len() == 0 || manager_standalone(bare, standalone) || chat_cwd(bare) {
                None
            } else {
                Some(bare)
            }
        },
        None => None,
    }
}

/// The project directory of a thread, given what asking for a new chat directory gave.
pub fn normalize_thread_cwd_against(
    cwd: Option<String>,
    standalone: &Result<HostPath, String>,
) -> (res: Option<String>)
    ensures
        text::opt_text(res) == project_cwd(text::opt_text(cwd), result_path(*standalone)),
{
    match cwd {
        Some(cwd) => {
            let bare = text::without_trailing(text::trimmed(cwd.as_str()), '/');
            if bare.is_empty() || is_manager_standalone_cwd(bare, standalone)
                || is_codex_desktop_chat_cwd(bare) {
                None
            } else {
                Some(bare.to_owned())
            }
        },
        None => None,
    }
}

/// Whether `after` is the project directory of a thread in `before`, for some outcome of
/// asking for a new chat directory with the given id.
pub open spec fn may_be_project(
    before: Option<Seq<char>>,
    after: Option<Seq<char>>,
    id: u64,
) -> bool {
    exists|standalone: Result<PathModel, Seq<char>>| #[trigger]
        standalone_outcome(standalone, id) && after == project_cwd(before, standalone)
}

/// Asking for a new chat directory has some outcome.
pub proof fn lemma_outcome_exists(id: u64)
    ensures
        exists|standalone: Result<PathModel, Seq<char>>| #[trigger]
            standalone_outcome(standalone, id),
{
    let date = seq!['2', '0', '2', '6', '-', '0', '1', '-', '0', '1'];
    let time = seq!['0', '0', '0', '0', '0', '0', '0', '0', '0'];
    assert(date_text(date));
    assert(time_text(time));
    let outcome = standalone_path(None, date, time, id);
    assert(standalone_outcome(outcome, id));
}

/// How many ids it takes to tell the project directory of a thread: a new chat directory is
/// asked for only where the thread has a directory that is not empty.
pub open spec fn ids_taken(cwd: Option<Seq<char>>) -> nat {
    match cwd {
        Some(cwd) => if bare_cwd(cwd).len() > 0 {
            1
        } else {
            0
        },
        None => 0,
    }
}

/// The project directory of a thread.
pub fn normalize_thread_cwd(ids: &mut RequestIds, cwd: Option<String>) -> (res: Option<String>)
    ensures
        may_be_project(text::opt_text(cwd), text::opt_text(res), old(ids)@),
        final(ids)@ == requests::later_id(old(ids)@, ids_taken(text::opt_text(cwd))),
{
    let named = match &cwd {
        Some(cwd) => !text::without_trailing(text::trimmed(cwd.as_str()), '/').is_empty(),
        None => false,
    };
    if !named {
        proof {
            requests::law_ids_in_order(old(ids)@, 0);
            lemma_outcome_exists(old(ids)@);
        }
        return None;
    }
    let standalone = standalone_cwd(ids);
    normalize_thread_cwd_against(cwd, &standalone)
}

/// Whether an optional text is there and not blank.
pub open spec fn given(s: Option<Seq<char>>) -> bool {
    match s {
        Some(s) => text::trim(s).len() > 0,
        None => false,
    }
}

/// Tells whether an optional text is there and not blank.
pub fn is_given(s: Option<&str>) -> (res: bool)
    ensures
        res == given(text::opt_str(s)),
{
    match s {
        Some(s) => !text::trimmed(s).is_empty(),
        None => false,
    }
}

/// What is reported of a path that is no Unicode text.
pub open spec fn not_unicode(path: PathModel) -> Seq<char> {
    "cwd 不是有效 UTF-8："@ + path.text
}

/// The text of a path, or what is reported where it is no Unicode text.
pub open spec fn path_text(path: PathModel) -> Result<Seq<char>, Seq<char>> {
    if path.is_text() {
        Ok(path.text)
    } else {
        Err(not_unicode(path))
    }
}

/// The text of a path.
fn text_of_path(path: &HostPath) -> (res: Result<String, String>)
    ensures
        text::result_text(res) == path_text(path@),
{
    if path.raw.is_none() {
        Ok(path.text.clone())
    } else {
        Err(text::cat("cwd 不是有效 UTF-8：", path.text.as_str()))
    }
}

/// The view of an outcome that is an optional text or a message.
pub open spec fn result_opt_text(res: Result<Option<String>, String>) -> Result<
    Option<Seq<char>>,
    Seq<char>,
> {
    match res {
        Ok(s) => Ok(text::opt_text(s)),
        Err(message) => Err(message@),
    }
}

/// The directory that a new chat without a thread and a directory gets of its own.
pub open spec fn own_cwd(standalone: Result<PathModel, Seq<char>>) -> Result<
    Option<Seq<char>>,
    Seq<char>,
> {
    match standalone {
        Ok(path) => match path_text(path) {
            Ok(s) => Ok(Some(s)),
            Err(message) => Err(message),
        },
        Err(message) => Err(message),
    }
}

/// The directory that a chat gets of its own, given what asking for a new one gave.
pub fn own_cwd_from(standalone: Result<HostPath, String>) -> (res: Result<Option<String>, String>)
    ensures
        result_opt_text(res) == own_cwd(result_path(standalone)),
{
    match standalone {
        Ok(path) => match text_of_path(&path) {
            Ok(s) => Ok(Some(s)),
            Err(message) => Err(message),
        },
        Err(message) => Err(message),
    }
}

/// The directory that a chat gets of its own: none where a thread or a directory is given.
pub fn standalone_cwd_for_new_thread(
    ids: &mut RequestIds,
    thread_id: Option<&str>,
    cwd: Option<&str>,
) -> (res: Result<Option<String>, String>)
    ensures
        given(text::opt_str(thread_id)) || given(text::opt_str(cwd)) ==> {
            &&& res == Ok::<Option<String>, String>(None)
            &&& final(ids)@ == old(ids)@
        },
        !given(text::opt_str(thread_id)) && !given(text::opt_str(cwd)) ==> {
            &&& exists|standalone: Result<PathModel, Seq<char>>| #[trigger]
                standalone_outcome(standalone, old(ids)@) && result_opt_text(res) == own_cwd(
                    standalone,
                )
            &&& final(ids)@ == requests::later_id(old(ids)@, 1)
        },
{
    if is_given(thread_id) || is_given(cwd) {
        return Ok(None);
    }
    let standalone = standalone_cwd(ids);
    own_cwd_from(standalone)
}

/// Where a process is to be started, and whether that directory has to be made first.
#[derive(Debug, Clone, PartialEq, Eq)]
pub struct ProcessCwd {
    pub path: HostPath,
    pub create: bool,
}

/// The directory that a process is started in, for a chat directory that was asked for.
pub open spec fn made_cwd(standalone: Result<PathModel, Seq<char>>) -> Result<
    (PathModel, bool),
    Seq<char>,
> {
    match standalone {
        Ok(path) => Ok((path, true)),
        Err(message) => Err(message),
    }
}

/// The view of an outcome that is a directory for a process or a message.
pub open spec fn result_process_cwd(res: Result<ProcessCwd, String>) -> Result<
    (PathModel, bool),
    Seq<char>,
> {
    match res {
        Ok(cwd) => Ok((cwd.path@, cwd.create)),
        Err(message) => Err(message@),
    }
}

/// The directory that a process is started in: the given one as it stands, else a new one.
pub fn process_cwd(ids: &mut RequestIds, cwd: Option<&str>) -> (res: Result<ProcessCwd, String>)
    ensures
        given(text::opt_str(cwd)) ==> {
            &&& result_process_cwd(res) == Ok::<(PathModel, bool), Seq<char>>(
                (path_of(text::opt_str(cwd)->0), false),
            )
            &&& final(ids)@ == old(ids)@
        },
        !given(text::opt_str(cwd)) ==> {
            &&& exists|standalone: Result<PathModel, Seq<char>>| #[trigger]
                standalone_outcome(standalone, old(ids)@) && result_process_cwd(res) == made_cwd(
                    standalone,
                )
            &&& final(ids)@ == requests::later_id(old(ids)@, 1)
        },
{
    if let Some(cwd) = cwd {
        if !text::trimmed(cwd).is_empty() {
            let path = HostPath { text: cwd.to_owned(), raw: None };
            return Ok(ProcessCwd { path, create: false });
        }
    }
    let standalone = standalone_cwd(ids);
    let ghost outcome = result_path(standalone);
    let res = match standalone {
        Ok(path) => Ok(ProcessCwd { path, create: true }),
        Err(message) => Err(message),
    };
    assert(result_process_cwd(res) == made_cwd(outcome));
    res
}

/// The directory that is named to the app-server.
pub open spec fn cwd_in_effect(cwd: Option<Seq<char>>, process_cwd: PathModel) -> Result<
    Seq<char>,
    Seq<char>,
> {
    if given(cwd) {
        Ok(text::trim(cwd->0))
    } else {
        path_text(process_cwd)
    }
}

/// The directory that is named to the app-server: the given one, trimmed, else that of the
/// process.
pub fn effective_cwd(cwd: Option<&str>, process_cwd: &HostPath) -> (res: Result<String, String>)
    ensures
        text::result_text(res) == cwd_in_effect(text::opt_str(cwd), process_cwd@),
{
    if let Some(cwd) = cwd {
        let cwd = text::trimmed(cwd);
        if !cwd.is_empty() {
            return Ok(cwd.to_owned());
        }
    }
    text_of_path(process_cwd)
}

// ---------------------------------------------------------------------------
// Laws
// ---------------------------------------------------------------------------

/// One named step more on a path is one name more.
proof fn lemma_names_join(base: Seq<char>, step: Seq<char>)
    requires
        !step.contains('/'),
        is_step(step),
        step != ".."@,
    ensures
        path_names(path_join(base, step)) == path_names(base).push(step),
        path_join(base, step).len() > 0,
        path_join(base, step).last() == step.last(),
        base.len() > 0 ==> path_join(base, step)[0] == base[0],
{
    let keep = |piece: Seq<char>| is_step(piece) && piece != ".."@;
    reveal(Seq::filter);
    let empty = Seq::<char>::empty();
    assert(empty + step =~= step);
    text::lemma_split_nonempty(base, '/');
    if base.len() > 0 && base.last() != '/' {
        let longer = base.push('/');
        assert(longer.drop_last() =~= base);
        let pieces = text::split(base, '/');
        assert(text::split(longer, '/') == pieces.push(empty));
        text::lemma_split_append(longer, step, '/');
        let after = text::split(longer + step, '/');
        assert(after =~= pieces.push(step));
        assert(after.drop_last() =~= pieces);
        assert(after.last() == step);
    } else {
        text::lemma_split_append(base, step, '/');
        let pieces = text::split(base, '/');
        let after = text::split(base + step, '/');
        assert(pieces.last() == empty);
        assert(after =~= pieces.drop_last().push(step));
        assert(after.drop_last() =~= pieces.drop_last());
        assert(after.last() == step);
        assert(pieces.filter(keep) == pieces.drop_last().filter(keep));
    }
}

/// The bytes of a joined text are the bytes of its parts, joined.
proof fn lemma_utf8_joined(a: Seq<char>, b: Seq<char>)
    ensures
        encode_utf8(a + b) == encode_utf8(a) + encode_utf8(b),
    decreases b.len(),
{
    if b.len() == 0 {
        assert(a + b =~= a);
        assert(encode_utf8(a) + encode_utf8(b) =~= encode_utf8(a));
    } else {
        let front = b.drop_last();
        lemma_utf8_joined(a, front);
        text::lemma_utf8_push(a + front, b.last());
        text::lemma_utf8_push(front, b.last());
        assert((a + front).push(b.last()) =~= a + b);
        assert(front.push(b.last()) =~= b);
        assert(encode_utf8(a + b) =~= encode_utf8(a) + encode_utf8(b));
    }
}

/// The bytes of a text end in the byte of a slash exactly where the text ends in a slash.
proof fn lemma_utf8_slash(s: Seq<char>)
    requires
        s.len() > 0,
    ensures
        encode_utf8(s).len() > 0,
        encode_utf8(s).last() == 0x2f <==> s.last() == '/',
{
    let front = s.drop_last();
    let c = s.last() as u32;
    char_is_scalar(s.last());
    char_u32_cast(s.last(), c);
    assert(c == 0x2f <==> s.last() == '/');
    text::lemma_utf8_push(front, s.last());
    assert(front.push(s.last()) =~= s);
    let bytes = encode_scalar(c);
    assert(encode_utf8(s).last() == bytes.last());
    if c <= 0x7f {
        assert(c <= 0x7f ==> (c & 0x7f) as u8 == c) by (bit_vector);
    } else {
        assert((0x80u8 | (c & 0x3f) as u8) >= 0x80) by (bit_vector);
        assert(bytes.last() == last_continuation_byte(c));
    }
}

/// One step more on a path is one step more on the bytes that the host holds, whether the path
/// is Unicode text or not.
pub proof fn law_steps_are_taken_on_bytes(base: PathModel, step: Seq<char>)
    ensures
        host_join(base, step).bytes() == bytes_join(base.bytes(), step),
        host_join(base, step).is_text() == base.is_text(),
{
    if base.is_text() {
        let s = base.text;
        if s.len() == 0 {
            assert(s + step =~= step);
            lemma_utf8_joined(s, step);
        } else {
            lemma_utf8_slash(s);
            lemma_utf8_joined(s, step);
            lemma_utf8_joined(s.push('/'), step);
            text::lemma_utf8_push(s, '/');
            let slash = '/' as u32;
            assert(encode_scalar(slash) =~= seq![0x2fu8]) by {
                assert(0x2fu32 & 0x7f == 0x2f) by (bit_vector);
            }
            assert(encode_utf8(s.push('/')) =~= encode_utf8(s).push(0x2f));
        }
    }
}

/// The name of a chat directory is a plain name that ends in a digit.
proof fn lemma_chat_dir_name(time: Seq<char>, id: u64)
    requires
        time_text(time),
    ensures
        !chat_dir_name(time, id).contains('/'),
        is_step(chat_dir_name(time, id)),
        chat_dir_name(time, id) != ".."@,
        is_digit(chat_dir_name(time, id).last()),
{
    reveal_strlit("chat-");
    reveal_strlit("-");
    reveal_strlit(".");
    reveal_strlit("..");
    text::lemma_decimal_digits(id as nat);
    let name = chat_dir_name(time, id);
    let digits = text::decimal(id as nat);
    assert forall|i: int| 0 <= i < name.len() implies name[i] != '/' by {
        if i >= name.len() - digits.len() {
            assert(name[i] == digits[i - (name.len() - digits.len())]);
        }
    }
    assert(name.last() == digits.last());
    assert(name[0] == 'c');
    assert("."@[0] == '.');
    assert(".."@[0] == '.');
}

/// The directory of a new chat stands for no project, whatever directory would be new by
/// then, provided that the documents directory is a rooted path that ends in its only
/// `Documents` and that the year has four places.
pub proof fn law_standalone_is_no_project(
    documents: PathModel,
    date: Seq<char>,
    time: Seq<char>,
    id: u64,
    later: Result<PathModel, Seq<char>>,
)
    requires
        is_rooted(documents.text),
        path_names(documents.text).len() > 0,
        path_names(documents.text).last() == "Documents"@,
        forall|i: int|
            0 <= i < path_names(documents.text).len() - 1 ==> #[trigger] path_names(
                documents.text,
            )[i] != "Documents"@,
        iso_date(date),
        time_text(time),
    ensures
        standalone_path(Some(documents), date, time, id) matches Ok(path) && chat_cwd(path.text)
            && project_cwd(Some(path.text), later) is None,
{
    let name = chat_dir_name(time, id);
    lemma_chat_dir_name(time, id);
    reveal_strlit("Codex");
    reveal_strlit(".");
    reveal_strlit("..");
    assert(!"Codex"@.contains('/'));
    assert("Codex"@.len() == 5);
    assert("."@.len() == 1);
    assert(".."@.len() == 2);
    assert(!date.contains('/')) by {
        assert forall|i: int| 0 <= i < date.len() implies date[i] != '/' by {}
    }
    let first = path_join(documents.text, "Codex"@);
    let second = path_join(first, date);
    let path = path_join(second, name);
    lemma_names_join(documents.text, "Codex"@);
    lemma_names_join(first, date);
    lemma_names_join(second, name);
    let names = path_names(path);
    let base = path_names(documents.text);
    assert(names =~= base.push("Codex"@).push(date).push(name));
    assert(forall|i: int| 0 <= i < base.len() ==> names[i] == base[i]);
    text::lemma_trim_fixed(path);
    assert(bare_cwd(path) == path);
}

/// New chats never share a directory, as long as their ids differ.
pub proof fn law_chat_directories_differ(
    documents: PathModel,
    date: Seq<char>,
    time: Seq<char>,
    id: u64,
    other_date: Seq<char>,
    other_time: Seq<char>,
    other_id: u64,
)
    requires
        id != other_id,
    ensures
        standalone_path(Some(documents), date, time, id)->Ok_0.text != standalone_path(
            Some(documents),
            other_date,
            other_time,
            other_id,
        )->Ok_0.text,
{
    reveal_strlit("-");
    assert("-"@ =~= seq!['-']);
    let x = text::decimal(id as nat);
    let y = text::decimal(other_id as nat);
    text::lemma_decimal_digits(id as nat);
    text::lemma_decimal_digits(other_id as nat);
    let codex = path_join(documents.text, "Codex"@);
    let a = path_join(path_join(codex, date), "chat-"@ + time);
    let b = path_join(path_join(codex, other_date), "chat-"@ + other_time);
    let p = path_join(path_join(codex, date), chat_dir_name(time, id));
    let q = path_join(path_join(codex, other_date), chat_dir_name(other_time, other_id));
    assert(p =~= a.push('-') + x);
    assert(q =~= b.push('-') + y);
    if p == q {
        text::lemma_after_last(a, x, b, y, '-');
        text::lemma_decimal_injective(id as nat, other_id as nat);
    }
}

/// The project directory of a project directory is itself, unless white space was left at
/// its end when slashes were taken off.
pub proof fn law_project_cwd_is_stable(cwd: Seq<char>, standalone: Result<PathModel, Seq<char>>)
    requires
        text::trim(bare_cwd(cwd)) == bare_cwd(cwd),
    ensures
        project_cwd(Some(cwd), standalone) matches Some(project) ==> project_cwd(
            Some(project),
            standalone,
        ) == Some(project),
{
    text::lemma_trim_end_char_shape(text::trim(cwd), '/');
    assert(bare_cwd(bare_cwd(cwd)) == bare_cwd(cwd));
}

/// A step on a path follows it after one slash, which is not doubled.
pub proof fn law_step_follows_one_slash(base: &str, step: &str, res: String)
    requires
        call_ensures(joined_path, (base, step), res),
    ensures
        base@.len() == 0 ==> res@ == step@,
        base@.len() > 0 && base@.last() == '/' ==> res@ == base@ + step@,
        base@.len() > 0 && base@.last() != '/' ==> res@ == base@ + "/"@ + step@,
{
    reveal_strlit("/");
    assert("/"@ =~= seq!['/']);
    if base@.len() == 0 {
        assert(res@ =~= step@);
    } else if base@.last() != '/' {
        assert(res@ =~= base@ + "/"@ + step@);
    }
}

/// A step on a path of the host is a step on its text, and on its bytes where it is no text.
pub proof fn law_step_on_a_host_path(base: HostPath, step: &str, at: &str, joined: String, res: HostPath)
    requires
        call_ensures(HostPath::join, (&base, step), res),
        at@ == base@.text,
        call_ensures(joined_path, (at, step), joined),
    ensures
        res@.text == joined@,
        res@.is_text() <==> base@.is_text(),
        res@.bytes() == if base@.bytes().len() == 0 || base@.bytes().last() == 0x2f {
            base@.bytes() + encode_utf8(step@)
        } else {
            base@.bytes().push(0x2f) + encode_utf8(step@)
        },
{
    law_steps_are_taken_on_bytes(base@, step@);
}

/// The names on a path are its pieces between slashes, in order, without those that are empty or
/// only dots.
pub proof fn law_names_are_pieces_of_the_path(value: &str, res: Vec<String>)
    requires
        call_ensures(path_components, (value,), res),
    ensures
        text::texts(res@) == text::split(value@, '/').filter(
            |piece: Seq<char>|
                piece.len() > 0 && piece != "."@ && piece != ".."@,
        ),
        forall|i: int|
            0 <= i < res@.len() ==> (#[trigger] res@[i])@.len() > 0 && res@[i]@ != "."@ && res@[i]@
                != ".."@,
{
    let keep = |piece: Seq<char>| piece.len() > 0 && piece != "."@ && piece != ".."@;
    assert(keep =~= |piece: Seq<char>| is_step(piece) && piece != ".."@);
    let all = text::split(value@, '/');
    assert forall|i: int| 0 <= i < res@.len() implies (#[trigger] res@[i])@.len() > 0 && res@[i]@
        != "."@ && res@[i]@ != ".."@ by {
        assert(text::texts(res@)[i] == res@[i]@);
        all.lemma_filter_pred(keep, i);
    }
}

/// A path is the same as itself and as itself with a slash after it, and is not the same as one
/// step more on it.
pub proof fn law_same_paths(left: &str, right: &HostPath, res: bool)
    requires
        call_ensures(paths_equal, (left, right), res),
        right@.is_text(),
    ensures
        left@ == right@.text ==> res,
        left@.len() > 0 && right@.text == left@.push('/') ==> res,
        path_steps(left@).len() != path_steps(right@.text).len() ==> !res,
        is_rooted(left@) != is_rooted(right@.text) ==> !res,
{
    if left@.len() > 0 && right@.text == left@.push('/') {
        let s = left@;
        let keep = |piece: Seq<char>| is_step(piece);
        let pieces = text::split(s, '/');
        text::lemma_split_nonempty(s, '/');
        assert(s.push('/').drop_last() =~= s);
        let after = text::split(s.push('/'), '/');
        assert(after == pieces.push(Seq::<char>::empty()));
        reveal(Seq::filter);
        assert(after.drop_last() =~= pieces);
        assert(after.filter(keep) == pieces.filter(keep));
        assert(after[0] == pieces[0]);
    }
}

/// A path that is no Unicode text is the same as no text.
pub proof fn law_no_text_is_a_path_without_text(left: &str, right: &HostPath, res: bool)
    requires
        call_ensures(paths_equal, (left, right), res),
        !right@.is_text(),
    ensures
        !res,
{
}

/// A date has ten characters: digits, with a hyphen at the fifth place and at the eighth.
pub proof fn law_form_of_a_date(value: &str, res: bool)
    requires
        call_ensures(is_iso_date, (value,), res),
    ensures
        res <==> {
            &&& value@.len() == 10
            &&& value@[4] == '-' && value@[7] == '-'
            &&& forall|i: int|
                0 <= i < 10 && i != 4 && i != 7 ==> '0' <= #[trigger] value@[i] <= '9'
        },
{
    if value@.len() == 10 {
        assert(value@[4] == '-' || value@[4] != '-');
        assert(value@[7] == '-' || value@[7] != '-');
    }
}

/// A directory of a chat ends in `Documents`, `Codex`, a date and a name, and no `Documents` stands
/// before that.
pub proof fn law_form_of_a_chat_directory(cwd: &str, names: Vec<String>, res: bool)
    requires
        call_ensures(is_codex_desktop_chat_cwd, (cwd,), res),
        call_ensures(path_components, (cwd,), names),
    ensures
        res <==> {
            let n = names@.len() as int;
            &&& n >= 4
            &&& names@[n - 4]@ == "Documents"@
            &&& names@[n - 3]@ == "Codex"@
            &&& iso_date(names@[n - 2]@)
            &&& forall|i: int| 0 <= i < n - 4 ==> (#[trigger] names@[i])@ != "Documents"@
        },
{
    let views = path_names(cwd@);
    assert(views.len() == names@.len());
    assert(forall|i: int| 0 <= i < names@.len() ==> views[i] == (#[trigger] names@[i])@);
    assert(forall|i: int| 0 <= i < names@.len() ==> #[trigger] views[i] == names@[i]@);
    let n = names@.len() as int;
    if n >= 4 {
        assert(views[n - 4] == names@[n - 4]@);
        assert(views[n - 3] == names@[n - 3]@);
        assert(views[n - 2] == names@[n - 2]@);
    }
}

/// The directory of a new chat lies in the documents directory: under `Codex`, the date, and a
/// name made of the time and the id.
pub proof fn law_chat_directory_is_named_by_date_time_and_id(
    documents: HostPath,
    date: &str,
    time: &str,
    id: u64,
    digits: String,
    codex: HostPath,
    day: HostPath,
    name: &str,
    chat: HostPath,
    res: Result<HostPath, String>,
    none: Result<HostPath, String>,
)
    requires
        call_ensures(standalone_cwd_in, (Some(documents), date, time, id), res),
        call_ensures(standalone_cwd_in, (None, date, time, id), none),
        call_ensures(text::u64_text, (id,), digits),
        call_ensures(HostPath::join, (&documents, "Codex"), codex),
        call_ensures(HostPath::join, (&codex, date), day),
        name@ == "chat-"@ + time@ + "-"@ + digits@,
        call_ensures(HostPath::join, (&day, name), chat),
    ensures
        res matches Ok(path) && path@ == chat@,
        none matches Err(message) && message@ == "无法定位文稿目录"@,
{
}

/// A directory is one for standalone chats where it is the new one, a chat directory under the
/// documents, or the one that earlier versions used; and none is where no directory can be had.
pub proof fn law_directories_for_standalone_chats(
    cwd: &str,
    path: HostPath,
    same: bool,
    chat: bool,
    front: Seq<char>,
    res: bool,
    unknown: bool,
    message: String,
)
    requires
        call_ensures(is_manager_standalone_cwd, (cwd, &Ok::<HostPath, String>(path)), res),
        call_ensures(is_manager_standalone_cwd, (cwd, &Err::<HostPath, String>(message)), unknown),
        call_ensures(paths_equal, (cwd, &path), same),
        call_ensures(is_codex_desktop_chat_cwd, (cwd,), chat),
    ensures
        !unknown,
        same ==> res,
        chat && text::has_part(cwd@, "/Documents/Codex/"@) ==> res,
        cwd@ == front + "/Application Support/CodexManager/standalone"@ ==> res,
        cwd@ == front + "/ApplicationSupport/CodexManager/standalone"@ ==> res,
        res ==> same || chat && text::has_part(cwd@, "/Documents/Codex/"@) || text::has_suffix(
            cwd@,
            "/Application Support/CodexManager/standalone"@,
        ) || text::has_suffix(cwd@, "/ApplicationSupport/CodexManager/standalone"@),
{
    let a = "/Application Support/CodexManager/standalone"@;
    let b = "/ApplicationSupport/CodexManager/standalone"@;
    if cwd@ == front + a {
        assert(cwd@.skip(cwd@.len() - a.len()) =~= a);
    }
    if cwd@ == front + b {
        assert(cwd@.skip(cwd@.len() - b.len()) =~= b);
    }
}

/// The project directory of a thread is its working directory without white space around it and
/// slashes after it, unless nothing is left of that or it is one for standalone chats.
pub proof fn law_project_is_the_bare_directory(
    cwd: String,
    standalone: Result<HostPath, String>,
    given: &str,
    trimmed: &str,
    bare: &str,
    manager: bool,
    chat: bool,
    res: Option<String>,
)
    requires
        call_ensures(normalize_thread_cwd_against, (Some(cwd), &standalone), res),
        given@ == cwd@,
        call_ensures(text::trimmed, (given,), trimmed),
        call_ensures(text::without_trailing, (trimmed, '/'), bare),
        call_ensures(is_manager_standalone_cwd, (bare, &standalone), manager),
        call_ensures(is_codex_desktop_chat_cwd, (bare,), chat),
    ensures
        text::opt_text(res) == if bare@.len() == 0 || manager || chat {
            None
        } else {
            Some(bare@)
        },
{
}

/// A thread without a directory has no project, and takes no id.
pub proof fn law_no_directory_no_project(
    ids: &mut RequestIds,
    cwd: Option<String>,
    standalone: Result<HostPath, String>,
    against: Option<String>,
    res: Option<String>,
)
    requires
        call_ensures(normalize_thread_cwd, (ids, cwd), res),
        call_ensures(normalize_thread_cwd_against, (cwd, &standalone), against),
        cwd matches Some(cwd) ==> text::is_blank(cwd@),
    ensures
        res is None,
        against is None,
        final(ids)@ == old(ids)@,
{
    requests::law_ids_in_order(old(ids)@, 0);
    if let Some(cwd) = cwd {
        text::lemma_trim_blank(cwd@);
        text::lemma_trim_end_char_shape(text::trim(cwd@), '/');
    }
}

/// The project directory of a thread, where it has one, is its working directory without white
/// space around it and slashes after it, and is no chat directory.
pub proof fn law_project_directory_of_a_thread(
    ids: &mut RequestIds,
    cwd: String,
    given: &str,
    trimmed: &str,
    bare: &str,
    chat: bool,
    res: Option<String>,
)
    requires
        call_ensures(normalize_thread_cwd, (ids, Some(cwd)), res),
        given@ == cwd@,
        call_ensures(text::trimmed, (given,), trimmed),
        call_ensures(text::without_trailing, (trimmed, '/'), bare),
        call_ensures(is_codex_desktop_chat_cwd, (bare,), chat),
    ensures
        res matches Some(project) ==> project@ == bare@ && bare@.len() > 0 && !chat,
{
}

/// A text is given where it is there and not blank.
pub proof fn law_blank_is_not_given(s: Option<&str>, res: bool)
    requires
        call_ensures(is_given, (s,), res),
    ensures
        res <==> (s matches Some(s) && !text::is_blank(s@)),
{
    if let Some(s) = s {
        text::lemma_trim_blank(s@);
    }
}

/// A chat gets the directory that was asked for as its own, where that is Unicode text.
pub proof fn law_own_directory_is_the_new_one(
    standalone: Result<HostPath, String>,
    res: Result<Option<String>, String>,
)
    requires
        call_ensures(own_cwd_from, (standalone,), res),
    ensures
        match standalone {
            Ok(path) => if path@.is_text() {
                res matches Ok(Some(own)) && own@ == path@.text
            } else {
                res matches Err(message) && message@ == "cwd 不是有效 UTF-8："@ + path@.text
            },
            Err(error) => res matches Err(message) && message@ == error@,
        },
{
}

/// A chat gets a directory of its own only where neither a thread nor a directory is given.
pub proof fn law_own_directory_for_new_chats_only(
    ids: &mut RequestIds,
    thread_id: Option<&str>,
    cwd: Option<&str>,
    thread: bool,
    directory: bool,
    res: Result<Option<String>, String>,
)
    requires
        call_ensures(standalone_cwd_for_new_thread, (ids, thread_id, cwd), res),
        call_ensures(is_given, (thread_id,), thread),
        call_ensures(is_given, (cwd,), directory),
    ensures
        thread || directory ==> res == Ok::<Option<String>, String>(None) && final(ids)@ == old(
            ids,
        )@,
        !thread && !directory ==> (res matches Ok(own) ==> own is Some) && final(ids)@
            == requests::later_id(old(ids)@, 1),
{
}

/// A process runs in the directory that is given, as it is and without making it; without one it
/// runs in a new one, which is made.
pub proof fn law_process_runs_where_it_is_told(
    ids: &mut RequestIds,
    cwd: Option<&str>,
    directory: bool,
    res: Result<ProcessCwd, String>,
)
    requires
        call_ensures(process_cwd, (ids, cwd), res),
        call_ensures(is_given, (cwd,), directory),
    ensures
        directory ==> (res matches Ok(found) && cwd is Some && found.path@.text == cwd->0@
            && found.path@.is_text() && !found.create) && final(ids)@ == old(ids)@,
        !directory ==> (res matches Ok(found) ==> found.create) && final(ids)@
            == requests::later_id(old(ids)@, 1),
{
}

/// The directory in effect is the one that is given, trimmed, else that of the process, where that
/// is Unicode text.
pub proof fn law_directory_in_effect(
    cwd: Option<&str>,
    process: &HostPath,
    res: Result<String, String>,
)
    requires
        call_ensures(effective_cwd, (cwd, process), res),
    ensures
        cwd matches Some(cwd) ==> !text::is_blank(cwd@) ==> (res matches Ok(found) && found@
            == text::trim(cwd@)),
        (cwd matches Some(cwd) ==> text::is_blank(cwd@)) ==> {
            &&& process@.is_text() ==> (res matches Ok(found) && found@ == process@.text)
            &&& !process@.is_text() ==> (res matches Err(message) && message@
                == "cwd 不是有效 UTF-8："@ + process@.text)
        },
{
    if let Some(cwd) = cwd {
        text::lemma_trim_blank(cwd@);
    }
}

/// The directory of a new chat takes one id, and is named by it.
pub proof fn law_new_chat_directory_takes_an_id(
    ids: &mut RequestIds,
    res: Result<HostPath, String>,
    digits: String,
)
    requires
        call_ensures(standalone_cwd, (ids,), res),
        call_ensures(text::u64_text, (old(ids)@,), digits),
    ensures
        final(ids)@ == requests::later_id(old(ids)@, 1),
        res matches Ok(path) ==> text::has_suffix(path@.text, "-"@ + digits@),
{
    if let Ok(path) = result_path(res) {
        let (documents, date, time) = choose|
            documents: Option<PathModel>,
            date: Seq<char>,
            time: Seq<char>,
        |
            date_text(date) && time_text(time) && result_path(res) == #[trigger] standalone_path(
                documents,
                date,
                time,
                old(ids)@,
            );
        let tail = "-"@ + digits@;
        let name = chat_dir_name(time, old(ids)@);
        assert(name =~= "chat-"@ + time + tail);
        assert(path.text.skip(path.text.len() - tail.len()) =~= tail);
    }
}

/// Two paths are the same where both or neither begin with a slash, both or neither begin with a
/// step `.`, and the pieces between slashes are the same without those that are empty or `.`.
pub proof fn law_same_paths_have_the_same_pieces(left: &str, right: &HostPath, res: bool)
    requires
        call_ensures(paths_equal, (left, right), res),
        right@.is_text(),
    ensures
        ({
            let a = text::split(left@, '/');
            let b = text::split(right@.text, '/');
            let says = |piece: Seq<char>| piece.len() > 0 && piece != "."@;
            res <==> {
                &&& (left@.len() > 0 && left@[0] == '/') == (right@.text.len() > 0
                    && right@.text[0] == '/')
                &&& (a[0] == "."@) == (b[0] == "."@)
                &&& a.filter(says) == b.filter(says)
            }
        }),
{
    let says = |piece: Seq<char>| piece.len() > 0 && piece != "."@;
    assert(says =~= |piece: Seq<char>| is_step(piece));
}

} // verus!
