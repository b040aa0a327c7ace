//! Providers of models for Codex: keeping them, showing them without their secrets, and
//! putting one of them to use.
use vstd::prelude::*;

use crate::config;
use crate::config::{AppConfig, CodexProvider, ConfigModel, ProviderModel};
use crate::json;
use crate::json::{Json, JsonView};
use crate::text;
use crate::toml_text;
use crate::toml_text::TomlView;
use crate::wire;
use crate::workdir;
use crate::workdir::{HostPath, PathModel};

verus! {

// ---------------------------------------------------------------------------
// Keys
// ---------------------------------------------------------------------------

/// The text that `str::to_lowercase` makes of `s`.
pub uninterp spec fn lowercase(s: Seq<char>) -> Seq<char>;

/// Whether `c` is an ASCII letter or digit.
pub open spec fn is_alphanumeric(c: char) -> bool {
    ('a' <= c <= 'z') || ('A' <= c <= 'Z') || ('0' <= c <= '9')
}

/// Whether `c` is an ASCII capital.
pub open spec fn is_capital(c: char) -> bool {
    'A' <= c <= 'Z'
}

/// Whether every character of `s` is ASCII.
pub open spec fn is_ascii(s: Seq<char>) -> bool {
    forall|i: int| 0 <= i < s.len() ==> #[trigger] s[i] <= '\u{7f}'
}

/// `c`, or its small letter where it is an ASCII capital.
pub open spec fn lower_ascii(c: char) -> char {
    if is_capital(c) {
        (c as u32 + 32) as char
    } else {
        c
    }
}

/// `s` with small letters in place of ASCII capitals.
pub open spec fn lowered_ascii(s: Seq<char>) -> Seq<char> {
    s.map_values(|c: char| lower_ascii(c))
}

/// Whether `s` holds an ASCII letter or digit.
pub open spec fn has_alphanumeric(s: Seq<char>) -> bool {
    exists|i: int| 0 <= i < s.len() && is_alphanumeric(#[trigger] s[i])
}

/// Whether `s` holds an ASCII capital.
pub open spec fn has_capital(s: Seq<char>) -> bool {
    exists|i: int| 0 <= i < s.len() && is_capital(#[trigger] s[i])
}

/// `str::to_lowercase`.
///
/// The contract claims that the text is the one that `lowercase` names, that no ASCII capital
/// is left in it, that in ASCII text capitals become their small letters and nothing else
/// changes, and that white space around a text makes no difference to whether its lowercase
/// holds an ASCII letter or digit.
#[verifier::external_body]
fn lowered(s: &str) -> (res: String)
    ensures
        res@ == lowercase(s@),
        !has_capital(res@),
        is_ascii(s@) ==> res@ == lowered_ascii(s@),
        forall|before: Seq<char>, after: Seq<char>|
            text::is_blank(before) && text::is_blank(after) ==> has_alphanumeric(
                #[trigger] lowercase(before + s@ + after),
            ) == has_alphanumeric(res@),
{
    s.to_lowercase()
}

/// `s` with every run of characters that are no ASCII letters or digits made one underscore.
pub open spec fn underscored(s: Seq<char>) -> Seq<char>
    decreases s.len(),
{
    if s.len() == 0 {
        seq![]
    } else {
        let front = underscored(s.drop_last());
        if is_alphanumeric(s.last()) {
            front.push(s.last())
        } else if front.len() > 0 && front.last() == '_' {
            front
        } else {
            front.push('_')
        }
    }
}

/// The key that is made of a text in lowercase.
pub open spec fn key_of(lower: Seq<char>) -> Seq<char> {
    let key = text::trim_end_char(text::trim_start_char(underscored(lower), '_'), '_');
    if key.len() == 0 {
        "custom"@
    } else {
        key
    }
}

/// The key that is made of a text.
pub open spec fn key_from(value: Seq<char>) -> Seq<char> {
    key_of(lowercase(text::trim(value)))
}

/// Whether `s` is a key: small ASCII letters and digits in groups, with one underscore between
/// groups.
pub open spec fn is_key(s: Seq<char>) -> bool {
    &&& s.len() > 0
    &&& forall|i: int|
        0 <= i < s.len() ==> (is_alphanumeric(#[trigger] s[i]) && !is_capital(s[i])) || s[i] == '_'
    &&& s[0] != '_'
    &&& s.last() != '_'
    &&& forall|i: int| 0 < i < s.len() && #[trigger] s[i] == '_' ==> s[i - 1] != '_'
}

/// What `underscored` leaves: letters, digits and single underscores.
proof fn lemma_underscored_shape(s: Seq<char>)
    ensures
        forall|i: int|
            0 <= i < underscored(s).len() ==> is_alphanumeric(#[trigger] underscored(s)[i])
                || underscored(s)[i] == '_',
        forall|i: int|
            0 < i < underscored(s).len() && #[trigger] underscored(s)[i] == '_'
                ==> underscored(s)[i - 1] != '_',
        !has_capital(s) ==> !has_capital(underscored(s)),
    decreases s.len(),
{
    if s.len() > 0 {
        let front = s.drop_last();
        lemma_underscored_shape(front);
        let before = underscored(front);
        let after = underscored(s);
        if !has_capital(s) {
            assert(!has_capital(front)) by {
                if has_capital(front) {
                    let i = choose|i: int| 0 <= i < front.len() && is_capital(#[trigger] front[i]);
                    assert(is_capital(s[i]));
                }
            }
            if has_capital(after) {
                let i = choose|i: int| 0 <= i < after.len() && is_capital(#[trigger] after[i]);
                if i < before.len() {
                    assert(is_capital(before[i]));
                } else {
                    assert(is_capital(s[s.len() - 1]));
                }
            }
        }
        assert forall|i: int| 0 < i < after.len() && #[trigger] after[i] == '_' implies after[i
            - 1] != '_' by {
            if i < before.len() {
                assert(after[i] == before[i]);
                assert(after[i - 1] == before[i - 1]);
            }
        }
    }
}

/// A key passes through `underscored` unchanged.
proof fn lemma_key_fixed(s: Seq<char>, n: int)
    requires
        0 <= n <= s.len(),
        forall|i: int| 0 <= i < n ==> is_alphanumeric(#[trigger] s[i]) || s[i] == '_',
        forall|i: int| 0 < i < n && #[trigger] s[i] == '_' ==> s[i - 1] != '_',
    ensures
        underscored(s.take(n)) == s.take(n),
    decreases n,
{
    let part = s.take(n);
    if n > 0 {
        lemma_key_fixed(s, n - 1);
        assert(part.drop_last() =~= s.take(n - 1));
        assert(part.last() == s[n - 1]);
        assert(s.take(n - 1).push(s[n - 1]) =~= part);
        if s[n - 1] == '_' && n > 1 {
            assert(s.take(n - 1).last() == s[n - 2]);
        }
    }
}

/// Taking underscores off the start leaves a part that does not begin with one.
proof fn lemma_strip_start(s: Seq<char>)
    ensures
        text::trim_start_char(s, '_').len() <= s.len(),
        text::trim_start_char(s, '_') == s.skip(s.len() - text::trim_start_char(s, '_').len()),
        text::trim_start_char(s, '_').len() > 0 ==> text::trim_start_char(s, '_')[0] != '_',
    decreases s.len(),
{
    if s.len() > 0 && s[0] == '_' {
        let rest = s.skip(1);
        lemma_strip_start(rest);
        let left = text::trim_start_char(s, '_');
        assert(rest.skip(rest.len() - left.len()) =~= s.skip(s.len() - left.len()));
    } else {
        assert(s.skip(0) =~= s);
    }
}

/// What is made of a text in lowercase is a key.
proof fn lemma_key_of_is_key(lower: Seq<char>)
    requires
        !has_capital(lower),
    ensures
        is_key(key_of(lower)),
{
    let u = underscored(lower);
    lemma_underscored_shape(lower);
    let a = text::trim_start_char(u, '_');
    lemma_strip_start(u);
    let b = text::trim_end_char(a, '_');
    text::lemma_trim_end_char_shape(a, '_');
    let off = u.len() - a.len();
    if b.len() > 0 {
        assert(b[0] == a[0]);
        assert forall|i: int| 0 <= i < b.len() implies (is_alphanumeric(#[trigger] b[i])
            && !is_capital(b[i])) || b[i] == '_' by {
            assert(b[i] == u[off + i]);
            if is_capital(u[off + i]) {
                assert(has_capital(u));
            }
        }
        assert forall|i: int| 0 < i < b.len() && #[trigger] b[i] == '_' implies b[i - 1]
            != '_' by {
            assert(b[i] == u[off + i]);
            assert(b[i - 1] == u[off + i - 1]);
        }
    } else {
        reveal_strlit("custom");
        let k = "custom"@;
        assert(k =~= seq!['c', 'u', 's', 't', 'o', 'm']);
    }
}

/// Of a text without ASCII letters and digits at most one underscore is left.
proof fn lemma_no_alphanumeric(s: Seq<char>)
    requires
        !has_alphanumeric(s),
    ensures
        underscored(s).len() <= 1,
        underscored(s).len() == 1 ==> underscored(s)[0] == '_',
    decreases s.len(),
{
    if s.len() > 0 {
        let front = s.drop_last();
        assert(!has_alphanumeric(front)) by {
            if has_alphanumeric(front) {
                let i = choose|i: int|
                    0 <= i < front.len() && is_alphanumeric(#[trigger] front[i]);
                assert(is_alphanumeric(s[i]));
            }
        }
        lemma_no_alphanumeric(front);
        assert(!is_alphanumeric(s[s.len() - 1]));
    }
}

/// A text without ASCII letters and digits has a key of its own.
proof fn lemma_custom_key(lower: Seq<char>)
    requires
        !has_alphanumeric(lower),
    ensures
        key_of(lower) == "custom"@,
{
    lemma_no_alphanumeric(lower);
    let u = underscored(lower);
    lemma_strip_start(u);
    let a = text::trim_start_char(u, '_');
    assert(a.len() == 0);
    text::lemma_trim_end_char_shape(a, '_');
}

/// The key of a key is itself.
proof fn lemma_key_of_key(s: Seq<char>)
    requires
        is_key(s),
    ensures
        key_of(s) == s,
        text::trim(s) == s,
        is_ascii(s),
        lowered_ascii(s) == s,
{
    assert(lowered_ascii(s) =~= s);
    lemma_key_fixed(s, s.len() as int);
    assert(s.take(s.len() as int) =~= s);
    assert(text::trim_start_char(s, '_') == s);
    assert(text::trim_end_char(s, '_') == s);
    text::lemma_trim_fixed(s);
}

/// The key of a provider, made of its id or name. The result is always a key, and a key is its
/// own key. Of ASCII text only the case of its letters is lost before the key is made; a text
/// that has no ASCII letter or digit in lowercase gets the key `custom`.
pub fn provider_key(value: &str) -> (res: String)
    ensures
        res@ == key_from(value@),
        is_key(res@),
        is_key(value@) ==> res@ == value@,
        is_ascii(text::trim(value@)) ==> res@ == key_of(lowered_ascii(text::trim(value@))),
        !has_alphanumeric(lowercase(text::trim(value@))) ==> res@ == "custom"@,
        !has_alphanumeric(lowercase(value@)) ==> res@ == "custom"@,
{
    let lower = lowered(text::trimmed(value));
    let cs = text::chars_of(lower.as_str());
    let mut key = String::new();
    let mut last_underscore = false;
    let mut i: usize = 0;
    assert(lower@.take(0) =~= Seq::<char>::empty());
    while i < cs.len()
        invariant
            i <= cs@.len(),
            cs@ == lower@,
            key@ == underscored(lower@.take(i as int)),
            last_underscore == (key@.len() > 0 && key@.last() == '_'),
        decreases cs.len() - i,
    {
        let c = cs[i];
        proof {
            assert(lower@.take(i + 1).drop_last() =~= lower@.take(i as int));
            assert(lower@.take(i + 1).last() == c);
        }
        if ('a' <= c && c <= 'z') || ('A' <= c && c <= 'Z') || ('0' <= c && c <= '9') {
            key.push(c);
            last_underscore = false;
        } else if !last_underscore {
            key.push('_');
            last_underscore = true;
        }
        i += 1;
    }
    assert(lower@.take(lower@.len() as int) =~= lower@);
    let bare = text::without_trailing(text::without_leading(key.as_str(), '_'), '_');
    proof {
        lemma_key_of_is_key(lower@);
        let (before, after) = text::lemma_trim_parts(value@);
        assert(lowercase(before + text::trim(value@) + after) == lowercase(value@));
        if !has_alphanumeric(lower@) {
            lemma_custom_key(lower@);
        }
        if is_key(value@) {
            lemma_key_of_key(value@);
        }
    }
    if bare.is_empty() {
        "custom".to_owned()
    } else {
        bare.to_owned()
    }
}

/// The id that a provider gets: the key of its id, or of its name where the id is blank.
pub open spec fn id_of(id: Seq<char>, name: Seq<char>) -> Seq<char> {
    key_from(
        if text::trim(id).len() == 0 {
            name
        } else {
            id
        },
    )
}

/// The id that a provider gets. An id that is a key already is kept.
pub fn normalize_id(id: &str, name: &str) -> (res: String)
    ensures
        res@ == id_of(id@, name@),
        is_key(res@),
        is_key(id@) ==> res@ == id@,
{
    if text::trimmed(id).is_empty() {
        proof {
            if is_key(id@) {
                lemma_key_of_key(id@);
            }
        }
        provider_key(name)
    } else {
        provider_key(id)
    }
}

// ---------------------------------------------------------------------------
// What is written for Codex
// ---------------------------------------------------------------------------

/// The inside of a TOML string.
pub fn escape_toml_string(value: &str) -> (res: String)
    ensures
        res@ == toml_text::toml_escaped(value@),
{
    let cs = text::chars_of(value);
    let mut out = String::new();
    let mut i: usize = 0;
    assert(value@.take(0) =~= Seq::<char>::empty());
    while i < cs.len()
        invariant
            i <= cs@.len(),
            cs@ == value@,
            out@ == toml_text::toml_escaped(value@.take(i as int)),
        decreases cs.len() - i,
    {
        let c = cs[i];
        proof {
            assert(value@.take(i + 1).drop_last() =~= value@.take(i as int));
            assert(value@.take(i + 1).last() == c);
        }
        let ghost before = out@;
        if c == '\\' || c == '"' {
            out.push('\\');
        }
        out.push(c);
        assert(out@ =~= before + toml_text::toml_char(c));
        i += 1;
    }
    assert(value@.take(value@.len() as int) =~= value@);
    out
}

/// `s`, where it is there and not blank.
pub open spec fn filled(s: Option<Seq<char>>) -> Option<Seq<char>> {
    if workdir::given(s) {
        s
    } else {
        None
    }
}

/// `s`, where it is there and not blank.
fn filled_text(s: &Option<String>) -> (res: Option<&str>)
    ensures
        text::opt_str(res) == filled(text::opt_text(*s)),
{
    match s {
        Some(s) => if text::trimmed(s.as_str()).is_empty() {
            None
        } else {
            Some(s.as_str())
        },
        None => None,
    }
}

/// A line of a `config.toml` that gives a text.
pub open spec fn text_line(name: Seq<char>, value: Seq<char>) -> Seq<char> {
    name + " = \""@ + toml_text::toml_escaped(value) + "\""@
}

/// The lines on the size of the context window.
pub open spec fn window_lines(provider: ProviderModel) -> Seq<Seq<char>> {
    if provider.context_window_1m {
        seq![
            "model_context_window = 1000000"@,
            "model_auto_compact_token_limit = "@ + text::decimal(token_limit(provider) as nat),
        ]
    } else {
        seq![]
    }
}

/// The lines of the `config.toml` that is generated for a provider with the given key.
pub open spec fn config_lines(provider: ProviderModel, key: Seq<char>) -> Seq<Seq<char>> {
    seq![
        "model_provider = \""@ + key + "\""@,
        text_line("model"@, provider.model),
        "model_reasoning_effort = \"high\""@,
        "disable_response_storage = true"@,
    ] + window_lines(provider) + seq![
        seq![],
        "[model_providers."@ + key + "]"@,
        "name = \""@ + key + "\""@,
        text_line("base_url"@, provider.base_url),
        "env_key = \"OPENAI_API_KEY\""@,
        "wire_api = \"responses\""@,
        "requires_openai_auth = true"@,
    ]
}

/// The `config.toml` that is generated for a provider with the given key.
pub open spec fn generated_config(provider: ProviderModel, key: Seq<char>) -> Seq<char> {
    toml_text::lines_text(config_lines(provider, key))
}

/// Whether the `config.toml` of a provider is generated from its fields.
pub open spec fn config_is_generated(provider: ProviderModel) -> bool {
    !provider.is_official && filled(provider.config_text) is None
}

/// The limit on tokens that is told for a provider with a large context window.
pub open spec fn token_limit(provider: ProviderModel) -> u64 {
    match provider.auto_compact_token_limit {
        Some(limit) => limit,
        None => 900_000,
    }
}

/// What the generated `config.toml` says outside of tables.
pub open spec fn root_entries(provider: ProviderModel, key: Seq<char>) -> Seq<
    (Seq<char>, TomlView),
> {
    seq![
        ("model_provider"@, TomlView::Text(key)),
        ("model"@, TomlView::Text(provider.model)),
        ("model_reasoning_effort"@, TomlView::Text("high"@)),
        ("disable_response_storage"@, TomlView::Flag(true)),
    ] + if provider.context_window_1m {
        seq![
            ("model_context_window"@, TomlView::Integer(1_000_000)),
            ("model_auto_compact_token_limit"@, TomlView::Integer(token_limit(provider) as int)),
        ]
    } else {
        seq![]
    }
}

/// What the generated `config.toml` says of the provider.
pub open spec fn inner_entries(provider: ProviderModel, key: Seq<char>) -> Seq<
    (Seq<char>, TomlView),
> {
    seq![
        ("name"@, TomlView::Text(key)),
        ("base_url"@, TomlView::Text(provider.base_url)),
        ("env_key"@, TomlView::Text("OPENAI_API_KEY"@)),
        ("wire_api"@, TomlView::Text("responses"@)),
        ("requires_openai_auth"@, TomlView::Flag(true)),
    ]
}

/// The table that the generated `config.toml` says.
pub open spec fn generated_table(provider: ProviderModel, key: Seq<char>) -> Map<
    Seq<char>,
    TomlView,
> {
    toml_text::document_table(
        root_entries(provider, key),
        "model_providers"@,
        key,
        inner_entries(provider, key),
    )
}

/// Whether the fields of a provider can be written down in a `config.toml`: no control
/// characters, and no number that is too large.
pub open spec fn is_writable(provider: ProviderModel) -> bool {
    &&& toml_text::has_no_control(provider.model)
    &&& toml_text::has_no_control(provider.base_url)
    &&& provider.context_window_1m ==> token_limit(provider) <= i64::MAX
}

/// The `config.toml` for a provider: none for the official one, its own where it has one.
pub open spec fn provider_config(provider: ProviderModel) -> Seq<char> {
    if provider.is_official {
        seq![]
    } else {
        match filled(provider.config_text) {
            Some(own) => own,
            None => generated_config(provider, key_from(provider.name)),
        }
    }
}

/// Adds a line to a text of lines.
fn add_line(out: &mut String, line: &str, Ghost(lines): Ghost<Seq<Seq<char>>>)
    requires
        old(out)@ == toml_text::lines_text(lines),
    ensures
        final(out)@ == toml_text::lines_text(lines.push(line@)),
{
    out.append(line);
    out.push('\n');
    assert(lines.push(line@).drop_last() =~= lines);
    assert(out@ =~= toml_text::lines_text(lines) + line@.push('\n'));
}

/// A line of a `config.toml` that gives a text.
fn text_line_of(name: &str, value: &str) -> (res: String)
    ensures
        res@ == text_line(name@, value@),
{
    let escaped = escape_toml_string(value);
    let head = text::cat3(name, " = \"", escaped.as_str());
    text::cat(head.as_str(), "\"")
}

/// The `config.toml` for a provider.
pub fn render_provider_config(provider: &CodexProvider) -> (res: String)
    ensures
        res@ == provider_config(provider@),
        config_is_generated(provider@) ==> is_key(key_from(provider@.name)),
{
    if provider.is_official {
        let none = String::new();
        assert(none@ =~= seq![]);
        return none;
    }
    if let Some(own) = filled_text(&provider.config_text) {
        return own.to_owned();
    }
    let key = provider_key(provider.name.as_str());
    let key = key.as_str();
    let mut out = String::new();
    let ghost mut lines: Seq<Seq<char>> = seq![];
    assert(out@ =~= toml_text::lines_text(lines));
    let line = text::cat3("model_provider = \"", key, "\"");
    add_line(&mut out, line.as_str(), Ghost(lines));
    proof {
        lines = lines.push(line@);
    }
    let line = text_line_of("model", provider.model.as_str());
    add_line(&mut out, line.as_str(), Ghost(lines));
    proof {
        lines = lines.push(line@);
    }
    add_line(&mut out, "model_reasoning_effort = \"high\"", Ghost(lines));
    proof {
        lines = lines.push("model_reasoning_effort = \"high\""@);
    }
    add_line(&mut out, "disable_response_storage = true", Ghost(lines));
    proof {
        lines = lines.push("disable_response_storage = true"@);
    }
    if provider.context_window_1m {
        add_line(&mut out, "model_context_window = 1000000", Ghost(lines));
        proof {
            lines = lines.push("model_context_window = 1000000"@);
        }
        let limit: u64 = match provider.auto_compact_token_limit {
            Some(limit) => limit,
            None => 900_000,
        };
        let line = text::cat("model_auto_compact_token_limit = ", text::u64_text(limit).as_str());
        add_line(&mut out, line.as_str(), Ghost(lines));
        proof {
            lines = lines.push(line@);
        }
    }
    let line = String::new();
    assert(line@ =~= seq![]);
    add_line(&mut out, line.as_str(), Ghost(lines));
    proof {
        lines = lines.push(line@);
    }
    let line = text::cat3("[model_providers.", key, "]");
    add_line(&mut out, line.as_str(), Ghost(lines));
    proof {
        lines = lines.push(line@);
    }
    let line = text::cat3("name = \"", key, "\"");
    add_line(&mut out, line.as_str(), Ghost(lines));
    proof {
        lines = lines.push(line@);
    }
    let line = text_line_of("base_url", provider.base_url.as_str());
    add_line(&mut out, line.as_str(), Ghost(lines));
    proof {
        lines = lines.push(line@);
    }
    add_line(&mut out, "env_key = \"OPENAI_API_KEY\"", Ghost(lines));
    proof {
        lines = lines.push("env_key = \"OPENAI_API_KEY\""@);
    }
    add_line(&mut out, "wire_api = \"responses\"", Ghost(lines));
    proof {
        lines = lines.push("wire_api = \"responses\""@);
    }
    add_line(&mut out, "requires_openai_auth = true", Ghost(lines));
    proof {
        lines = lines.push("requires_openai_auth = true"@);
        assert(lines =~= config_lines(provider@, key@));
    }
    out
}

/// What `auth.json` holds for a key.
pub open spec fn auth_of_key(api_key: Option<Seq<char>>) -> JsonView {
    match filled(api_key) {
        Some(key) => JsonView::Object(map!["OPENAI_API_KEY"@ => JsonView::Str(key)]),
        None => JsonView::Object(Map::empty()),
    }
}

/// The text of an `auth.json` that is generated for a key.
pub open spec fn generated_auth(api_key: Option<Seq<char>>) -> Seq<char> {
    wire::pretty_json(auth_of_key(api_key)).push('\n')
}

/// Whether the `auth.json` of a provider is generated from its key.
pub open spec fn auth_is_generated(provider: ProviderModel) -> bool {
    !provider.is_official && filled(provider.auth_text) is None
}

/// The `auth.json` for a provider: an empty object for the official one, its own where it has
/// one, else one that is generated from its key.
pub open spec fn provider_auth(provider: ProviderModel) -> Seq<char> {
    if provider.is_official {
        "{}\n"@
    } else {
        match filled(provider.auth_text) {
            Some(own) => own,
            None => generated_auth(provider.api_key),
        }
    }
}

/// An object with one plain text is plain.
proof fn lemma_auth_is_plain(api_key: Option<Seq<char>>)
    ensures
        wire::is_plain(auth_of_key(api_key), wire::READABLE_DEPTH as nat),
{
    reveal_with_fuel(wire::is_plain, 3);
    assert forall|key: Seq<char>|
        auth_of_key(api_key)->Object_0.contains_key(key) implies wire::is_plain(
        #[trigger] auth_of_key(api_key)->Object_0[key],
        126nat,
    ) by {}
}

/// The `auth.json` for a provider. One that is generated is read back as the object that holds
/// the key.
pub fn render_provider_auth_text(provider: &CodexProvider) -> (res: String)
    ensures
        res@ == provider_auth(provider@),
        auth_is_generated(provider@) ==> wire::reads_as(res@, auth_of_key(provider@.api_key)),
{
    if provider.is_official {
        return "{}\n".to_owned();
    }
    if let Some(own) = filled_text(&provider.auth_text) {
        return own.to_owned();
    }
    let auth = match filled_text(&provider.api_key) {
        Some(key) => Json::empty_object().with("OPENAI_API_KEY", Json::text(key)),
        None => Json::empty_object(),
    };
    proof {
        lemma_auth_is_plain(provider@.api_key);
    }
    let mut out = match wire::pretty_text(&auth) {
        Ok(shown) => shown,
        Err(_) => "{}".to_owned(),
    };
    out.push('\n');
    out
}

// ---------------------------------------------------------------------------
// Secrets
// ---------------------------------------------------------------------------

/// `n` asterisks.
pub open spec fn stars(n: nat) -> Seq<char> {
    Seq::new(n, |i: int| '*')
}

/// A secret as it is shown: asterisks, and the last four characters of a long one.
pub open spec fn masked(secret: Seq<char>) -> Seq<char> {
    let n = secret.len();
    if n <= 8 {
        stars(n)
    } else {
        stars(if n - 4 < 8 { 8 } else { (n - 4) as nat }) + secret.skip(n - 4)
    }
}

/// A secret as it is shown.
pub fn mask_secret(value: &str) -> (res: String)
    ensures
        res@ == masked(value@),
{
    let cs = text::chars_of(value);
    let n = cs.len();
    let hidden: usize = if n <= 8 {
        n
    } else if n - 4 < 8 {
        8
    } else {
        n - 4
    };
    let mut out = String::new();
    let mut i: usize = 0;
    assert(out@ =~= stars(0));
    while i < hidden
        invariant
            i <= hidden,
            out@ == stars(i as nat),
        decreases hidden - i,
    {
        out.push('*');
        i += 1;
        assert(out@ =~= stars(i as nat));
    }
    if n > 8 {
        let tail = text::text_of(&cs, n - 4, n);
        assert(tail@ =~= value@.skip(n - 4));
        out.append(tail.as_str());
    }
    out
}

// ---------------------------------------------------------------------------
// Checks
// ---------------------------------------------------------------------------

/// The message of an outcome that may be an error.
pub open spec fn message_of(res: Result<(), String>) -> Option<Seq<char>> {
    match res {
        Ok(_) => None,
        Err(message) => Some(message@),
    }
}

/// What is reported of a text that is no `config.toml`.
pub open spec fn config_error(s: Seq<char>) -> Option<Seq<char>> {
    match toml_text::parsed_toml(s) {
        Ok(_) => None,
        Err(message) => Some("Codex config.toml 语法错误："@ + message),
    }
}

/// Checks that a text is a `config.toml`.
fn check_config(s: &str) -> (res: Result<(), String>)
    ensures
        message_of(res) == config_error(s@),
        forall|
            root: Seq<(Seq<char>, TomlView)>,
            group: Seq<char>,
            name: Seq<char>,
            inner: Seq<(Seq<char>, TomlView)>,
        |
            toml_text::is_plain_document(root, group, name, inner) && s@
                == #[trigger] toml_text::toml_document(root, group, name, inner)
                ==> toml_text::parsed_toml(s@) == Ok::<Map<Seq<char>, TomlView>, Seq<char>>(
                toml_text::document_table(root, group, name, inner),
            ),
{
    match toml_text::read_toml(s) {
        Ok(_) => Ok(()),
        Err(message) => Err(text::cat("Codex config.toml 语法错误：", message.as_str())),
    }
}

/// The object in a text that is an `auth.json`, or what is reported of it.
pub open spec fn auth_object(s: Seq<char>) -> Result<JsonView, Seq<char>> {
    match wire::parsed_json(s) {
        Ok(JsonView::Object(members)) => Ok(JsonView::Object(members)),
        Ok(_) => Err("Codex auth.json 必须是 JSON 对象"@),
        Err(message) => Err("Codex auth.json 语法错误："@ + message),
    }
}

/// Reads an `auth.json`.
fn read_auth(s: &str) -> (res: Result<Json, String>)
    ensures
        wire::result_json(res) == auth_object(s@),
        res matches Ok(auth) ==> wire::nests_within(auth@, wire::READABLE_DEPTH as nat),
{
    match wire::parse_json(s) {
        Ok(auth) => if auth.is_object() {
            Ok(auth)
        } else {
            Err("Codex auth.json 必须是 JSON 对象".to_owned())
        },
        Err(message) => Err(text::cat("Codex auth.json 语法错误：", message.as_str())),
    }
}

/// What is wrong with a provider, where anything is.
pub open spec fn provider_error(provider: ProviderModel) -> Option<Seq<char>> {
    if text::trim(provider.name).len() == 0 {
        Some("供应商名称不能为空"@)
    } else if provider.is_official {
        None
    } else if text::trim(provider.base_url).len() == 0 {
        Some("Base URL 不能为空"@)
    } else if text::trim(provider.model).len() == 0 {
        Some("模型名称不能为空"@)
    } else {
        let own = match filled(provider.config_text) {
            Some(own) => config_error(own),
            None => None,
        };
        match own {
            Some(message) => Some(message),
            None => match auth_object(provider_auth(provider)) {
                Err(message) => Some(message),
                Ok(auth) => if workdir::given(json::text_at(auth, "OPENAI_API_KEY"@)) {
                    None
                } else {
                    Some("自定义供应商必须填写 OPENAI_API_KEY"@)
                },
            },
        }
    }
}

/// Whether a provider is filled in by its plain fields alone, with a key.
pub open spec fn plainly_filled(provider: ProviderModel) -> bool {
    &&& text::trim(provider.name).len() > 0
    &&& text::trim(provider.base_url).len() > 0
    &&& text::trim(provider.model).len() > 0
    &&& filled(provider.api_key) is Some
    &&& filled(provider.config_text) is None
    &&& auth_is_generated(provider)
}

/// Checks a provider. One that is filled in by its plain fields, with a key, is in order.
pub fn validate_provider(provider: &CodexProvider) -> (res: Result<(), String>)
    ensures
        message_of(res) == provider_error(provider@),
        plainly_filled(provider@) ==> res is Ok,
{
    if text::trimmed(provider.name.as_str()).is_empty() {
        return Err("供应商名称不能为空".to_owned());
    }
    if provider.is_official {
        return Ok(());
    }
    if text::trimmed(provider.base_url.as_str()).is_empty() {
        return Err("Base URL 不能为空".to_owned());
    }
    if text::trimmed(provider.model.as_str()).is_empty() {
        return Err("模型名称不能为空".to_owned());
    }
    if let Some(own) = filled_text(&provider.config_text) {
        if let Err(message) = check_config(own) {
            return Err(message);
        }
    }
    let auth = match read_auth(render_provider_auth_text(provider).as_str()) {
        Ok(auth) => auth,
        Err(message) => {
            return Err(message);
        },
    };
    if let Some(key) = json::str_in(auth.get("OPENAI_API_KEY")) {
        if !text::trimmed(key).is_empty() {
            return Ok(());
        }
    }
    Err("自定义供应商必须填写 OPENAI_API_KEY".to_owned())
}

// ---------------------------------------------------------------------------
// What is shown of a provider
// ---------------------------------------------------------------------------

/// A provider as it is shown.
#[derive(Debug, Clone, PartialEq, Eq)]
pub struct CodexProviderView {
    pub id: String,
    pub name: String,
    pub base_url: String,
    pub model: String,
    pub api_key_masked: String,
    pub has_api_key: bool,
    pub auth_text: String,
    pub rendered_auth_text: String,
    pub config_text: String,
    pub rendered_config_text: String,
    pub context_window_1m: bool,
    pub auto_compact_token_limit: Option<u64>,
    pub active: bool,
    pub is_official: bool,
}

/// What a `CodexProviderView` says.
#[verifier::ext_equal]
pub struct ShownProvider {
    pub id: Seq<char>,
    pub name: Seq<char>,
    pub base_url: Seq<char>,
    pub model: Seq<char>,
    pub api_key_masked: Seq<char>,
    pub has_api_key: bool,
    pub auth_text: Seq<char>,
    pub rendered_auth_text: Seq<char>,
    pub config_text: Seq<char>,
    pub rendered_config_text: Seq<char>,
    pub context_window_1m: bool,
    pub auto_compact_token_limit: Option<u64>,
    pub active: bool,
    pub is_official: bool,
}

impl View for CodexProviderView {
    type V = ShownProvider;

    open spec fn view(&self) -> ShownProvider {
        ShownProvider {
            id: self.id@,
            name: self.name@,
            base_url: self.base_url@,
            model: self.model@,
            api_key_masked: self.api_key_masked@,
            has_api_key: self.has_api_key,
            auth_text: self.auth_text@,
            rendered_auth_text: self.rendered_auth_text@,
            config_text: self.config_text@,
            rendered_config_text: self.rendered_config_text@,
            context_window_1m: self.context_window_1m,
            auto_compact_token_limit: self.auto_compact_token_limit,
            active: self.active,
            is_official: self.is_official,
        }
    }
}

/// The text that may be there, or none.
pub open spec fn or_empty(s: Option<Seq<char>>) -> Seq<char> {
    match s {
        Some(s) => s,
        None => seq![],
    }
}

/// What is shown of a provider.
pub open spec fn shown(provider: ProviderModel, active_id: Option<Seq<char>>) -> ShownProvider {
    ShownProvider {
        id: provider.id,
        name: provider.name,
        base_url: provider.base_url,
        model: provider.model,
        api_key_masked: masked(or_empty(provider.api_key)),
        has_api_key: workdir::given(provider.api_key),
        auth_text: or_empty(provider.auth_text),
        rendered_auth_text: provider_auth(provider),
        config_text: or_empty(provider.config_text),
        rendered_config_text: provider_config(provider),
        context_window_1m: provider.context_window_1m,
        auto_compact_token_limit: provider.auto_compact_token_limit,
        active: active_id == Some(provider.id),
        is_official: provider.is_official,
    }
}

/// The text that may be there, or none.
fn text_or_empty(s: &Option<String>) -> (res: String)
    ensures
        res@ == or_empty(text::opt_text(*s)),
{
    match s {
        Some(s) => s.clone(),
        None => {
            let none = String::new();
            assert(none@ =~= seq![]);
            none
        },
    }
}

/// Whether an optional text is the given one.
fn is_text(s: &Option<String>, wanted: &str) -> (res: bool)
    ensures
        res == (text::opt_text(*s) == Some(wanted@)),
{
    match s {
        Some(s) => text::eq(s.as_str(), wanted),
        None => false,
    }
}

/// What is shown of a provider.
pub fn to_view(provider: &CodexProvider, active_id: &Option<String>) -> (res: CodexProviderView)
    ensures
        res@ == shown(provider@, text::opt_text(*active_id)),
{
    CodexProviderView {
        id: provider.id.clone(),
        name: provider.name.clone(),
        base_url: provider.base_url.clone(),
        model: provider.model.clone(),
        api_key_masked: mask_secret(text_or_empty(&provider.api_key).as_str()),
        has_api_key: filled_text(&provider.api_key).is_some(),
        auth_text: text_or_empty(&provider.auth_text),
        rendered_auth_text: render_provider_auth_text(provider),
        config_text: text_or_empty(&provider.config_text),
        rendered_config_text: render_provider_config(provider),
        context_window_1m: provider.context_window_1m,
        auto_compact_token_limit: provider.auto_compact_token_limit,
        active: is_text(active_id, provider.id.as_str()),
        is_official: provider.is_official,
    }
}

// ---------------------------------------------------------------------------
// The store
// ---------------------------------------------------------------------------

/// The providers that are kept, and which of them is in use.
#[derive(Debug, Clone, PartialEq, Eq)]
pub struct ProviderStore {
    pub active_id: Option<String>,
    pub providers: Vec<CodexProvider>,
}

/// What a `ProviderStore` holds.
#[verifier::ext_equal]
pub struct StoreModel {
    pub active_id: Option<Seq<char>>,
    pub providers: Seq<ProviderModel>,
}

impl View for ProviderStore {
    type V = StoreModel;

    open spec fn view(&self) -> StoreModel {
        StoreModel {
            active_id: text::opt_text(self.active_id),
            providers: config::provider_views(self.providers@),
        }
    }
}

/// The store in a configuration.
pub open spec fn store_in(config: ConfigModel) -> StoreModel {
    StoreModel { active_id: config.active_provider_id, providers: config.providers }
}

/// The store in a configuration.
pub fn read_store(config: &AppConfig) -> (res: ProviderStore)
    ensures
        res@ == store_in(config@),
{
    ProviderStore {
        active_id: text::copy_opt(&config.active_provider_id),
        providers: config::copy_providers(&config.providers),
    }
}

/// Puts a store into a configuration. Nothing else in it changes.
pub fn write_store(config: &mut AppConfig, store: &ProviderStore)
    ensures
        final(config)@ == (ConfigModel {
            active_provider_id: store@.active_id,
            providers: store@.providers,
            ..old(config)@
        }),
        store_in(final(config)@) == store@,
{
    config.active_provider_id = text::copy_opt(&store.active_id);
    config.providers = config::copy_providers(&store.providers);
}

/// What is shown of the providers in a store.
pub fn list_provider_views(store: &ProviderStore) -> (res: Vec<CodexProviderView>)
    ensures
        res@.len() == store@.providers.len(),
        forall|i: int|
            0 <= i < res@.len() ==> (#[trigger] res@[i])@ == shown(
                store@.providers[i],
                store@.active_id,
            ),
{
    let mut res: Vec<CodexProviderView> = Vec::new();
    let mut i: usize = 0;
    while i < store.providers.len()
        invariant
            i <= store.providers@.len(),
            res@.len() == i,
            forall|k: int|
                0 <= k < i ==> (#[trigger] res@[k])@ == shown(
                    store@.providers[k],
                    store@.active_id,
                ),
        decreases store.providers.len() - i,
    {
        res.push(to_view(&store.providers[i], &store.active_id));
        i += 1;
    }
    res
}

/// The place of the first provider with an id; the length of the list where there is none.
pub open spec fn place_of(providers: Seq<ProviderModel>, id: Seq<char>) -> int
    decreases providers.len(),
{
    if providers.len() == 0 || providers[0].id == id {
        0
    } else {
        1 + place_of(providers.skip(1), id)
    }
}

/// What `place_of` tells.
pub proof fn lemma_place(providers: Seq<ProviderModel>, id: Seq<char>, at: int)
    requires
        0 <= at <= providers.len(),
        forall|k: int| 0 <= k < at ==> (#[trigger] providers[k]).id != id,
        at < providers.len() ==> providers[at].id == id,
    ensures
        place_of(providers, id) == at,
    decreases providers.len(),
{
    if at > 0 {
        assert(providers[0].id != id);
        let rest = providers.skip(1);
        assert forall|k: int| 0 <= k < at - 1 implies (#[trigger] rest[k]).id != id by {
            assert(rest[k] == providers[k + 1]);
        }
        lemma_place(rest, id, at - 1);
    }
}

/// The first provider with an id stands at its place, and none before it has the id.
pub proof fn lemma_place_found(providers: Seq<ProviderModel>, id: Seq<char>)
    ensures
        0 <= place_of(providers, id) <= providers.len(),
        place_of(providers, id) < providers.len() ==> providers[place_of(providers, id)].id == id,
        forall|k: int|
            0 <= k < place_of(providers, id) ==> (#[trigger] providers[k]).id != id,
    decreases providers.len(),
{
    if providers.len() > 0 && providers[0].id != id {
        let rest = providers.skip(1);
        lemma_place_found(rest, id);
        assert forall|k: int| 0 <= k < place_of(providers, id) implies (#[trigger] providers[k]).id
            != id by {
            if k > 0 {
                assert(providers[k] == rest[k - 1]);
            }
        }
    }
}

/// Finds the first provider with an id.
fn find_place(providers: &Vec<CodexProvider>, id: &str) -> (res: usize)
    ensures
        res == place_of(config::provider_views(providers@), id@),
        res <= providers@.len(),
{
    let ghost views = config::provider_views(providers@);
    let mut i: usize = 0;
    while i < providers.len()
        invariant
            i <= providers@.len(),
            views == config::provider_views(providers@),
            forall|k: int| 0 <= k < i ==> (#[trigger] views[k]).id != id@,
        decreases providers.len() - i,
    {
        if text::eq(providers[i].id.as_str(), id) {
            proof {
                lemma_place(views, id@, i as int);
            }
            return i;
        }
        i += 1;
    }
    proof {
        lemma_place(views, id@, i as int);
    }
    i
}

/// The provider that is put into a store: with its id made a key, and with what is left blank
/// taken from the provider that it replaces.
pub open spec fn merged(store: StoreModel, provider: ProviderModel) -> ProviderModel {
    let id = id_of(provider.id, provider.name);
    let at = place_of(store.providers, id);
    let renamed = ProviderModel { id, ..provider };
    if at < store.providers.len() {
        let existing = store.providers[at];
        ProviderModel {
            api_key: if filled(provider.api_key) is None {
                existing.api_key
            } else {
                provider.api_key
            },
            auth_text: if filled(provider.auth_text) is None {
                existing.auth_text
            } else {
                provider.auth_text
            },
            active: existing.active,
            ..renamed
        }
    } else {
        renamed
    }
}

/// The store with a provider put in: in the place of the one with the same id, else at the end.
/// The first provider is put to use where none is.
pub open spec fn with_provider(store: StoreModel, provider: ProviderModel) -> StoreModel {
    let entry = merged(store, provider);
    let at = place_of(store.providers, entry.id);
    StoreModel {
        active_id: if store.active_id is None {
            Some(entry.id)
        } else {
            store.active_id
        },
        providers: if at < store.providers.len() {
            store.providers.update(at, entry)
        } else {
            store.providers.push(entry)
        },
    }
}

/// Saves a provider in a store, unless something is wrong with it. One that is filled in by its
/// plain fields, with a key, is saved.
pub fn save_provider(store: &mut ProviderStore, provider: CodexProvider) -> (res: Result<
    CodexProviderView,
    String,
>)
    ensures
        match provider_error(merged(old(store)@, provider@)) {
            None => {
                &&& final(store)@ == with_provider(old(store)@, provider@)
                &&& res is Ok
                &&& res->Ok_0@ == shown(
                    merged(old(store)@, provider@),
                    with_provider(old(store)@, provider@).active_id,
                )
            },
            Some(message) => {
                &&& final(store)@ == old(store)@
                &&& res is Err
                &&& res->Err_0@ == message
            },
        },
        plainly_filled(merged(old(store)@, provider@)) ==> res is Ok,
        is_key(merged(old(store)@, provider@).id),
{
    let mut entry = provider;
    let ghost given = entry@;
    let ghost before = store@;
    entry.id = normalize_id(entry.id.as_str(), entry.name.as_str());
    let at = find_place(&store.providers, entry.id.as_str());
    proof {
        lemma_place_found(before.providers, entry@.id);
    }
    let known = at < store.providers.len();
    if known {
        if filled_text(&entry.api_key).is_none() {
            entry.api_key = text::copy_opt(&store.providers[at].api_key);
        }
        if filled_text(&entry.auth_text).is_none() {
            entry.auth_text = text::copy_opt(&store.providers[at].auth_text);
        }
        entry.active = store.providers[at].active;
    }
    assert(entry@ == merged(before, given));
    if let Err(message) = validate_provider(&entry) {
        return Err(message);
    }
    if store.active_id.is_none() {
        store.active_id = Some(entry.id.clone());
    }
    let view = to_view(&entry, &store.active_id);
    if known {
        store.providers.set(at, entry);
        assert(store@.providers =~= before.providers.update(at as int, merged(before, given)));
    } else {
        store.providers.push(entry);
        assert(store@.providers =~= before.providers.push(merged(before, given)));
    }
    Ok(view)
}

/// The store without the providers of an id. Where that one was in use, the first that is left
/// takes its place.
pub open spec fn without_provider(store: StoreModel, id: Seq<char>) -> StoreModel {
    let left = store.providers.filter(|provider: ProviderModel| provider.id != id);
    StoreModel {
        active_id: if store.active_id == Some(id) {
            if left.len() > 0 {
                Some(left[0].id)
            } else {
                None
            }
        } else {
            store.active_id
        },
        providers: left,
    }
}

/// Deletes a provider from a store.
pub fn delete_provider(store: &mut ProviderStore, id: &str)
    ensures
        final(store)@ == without_provider(old(store)@, id@),
{
    let ghost views = store@.providers;
    let ghost keep = |provider: ProviderModel| provider.id != id@;
    let mut left: Vec<CodexProvider> = Vec::new();
    let mut i: usize = 0;
    assert(views.take(0).filter(keep) =~= Seq::<ProviderModel>::empty()) by {
        reveal(Seq::filter);
    }
    assert(config::provider_views(left@) =~= Seq::<ProviderModel>::empty());
    while i < store.providers.len()
        invariant
            i <= store.providers@.len(),
            *store == *old(store),
            views == config::provider_views(store.providers@),
            keep == (|provider: ProviderModel| provider.id != id@),
            config::provider_views(left@) == views.take(i as int).filter(keep),
        decreases store.providers.len() - i,
    {
        proof {
            assert(views.take(i + 1).drop_last() =~= views.take(i as int));
            assert(views.take(i + 1).last() == views[i as int]);
            reveal(Seq::filter);
        }
        if !text::eq(store.providers[i].id.as_str(), id) {
            let ghost before = left@;
            let kept = store.providers[i].copy();
            left.push(kept);
            assert(config::provider_views(left@) =~= config::provider_views(before).push(
                views[i as int],
            ));
        }
        i += 1;
    }
    assert(views.take(views.len() as int) =~= views);
    if is_text(&store.active_id, id) {
        store.active_id = if left.len() > 0 {
            Some(left[0].id.clone())
        } else {
            None
        };
    }
    assert(config::provider_views(left@).len() == left@.len());
    store.providers = left;
    assert(store@ =~= without_provider(old(store)@, id@));
}

/// What is written to the directory of Codex to put a provider to use.
#[derive(Debug, Clone, PartialEq, Eq)]
pub struct LiveConfig {
    pub auth_text: String,
    pub config_text: String,
}

/// The `auth.json` and the `config.toml` of a provider, or what is wrong with them.
pub open spec fn live_files(provider: ProviderModel) -> Result<
    (Seq<char>, Seq<char>),
    Seq<char>,
> {
    let config_text = provider_config(provider);
    let bad_config = if text::trim(config_text).len() == 0 {
        None
    } else {
        config_error(config_text)
    };
    match bad_config {
        Some(message) => Err(message),
        None => match auth_object(provider_auth(provider)) {
            Err(message) => Err(message),
            Ok(auth) => Ok((wire::pretty_json(auth), config_text)),
        },
    }
}

/// Whether `toml` reads from a `config.toml` what the fields of a provider say, where it is
/// generated from these and they can be written down.
pub open spec fn config_is_kept(provider: ProviderModel, written: Seq<char>) -> bool {
    config_is_generated(provider) && is_writable(provider) ==> toml_text::parsed_toml(written)
        == Ok::<Map<Seq<char>, TomlView>, Seq<char>>(
        generated_table(provider, key_from(provider.name)),
    )
}

/// Whether the files of a provider are generated from its fields, which can be written down.
pub open spec fn files_are_generated(provider: ProviderModel) -> bool {
    config_is_generated(provider) && is_writable(provider) && auth_is_generated(provider)
}

/// Whether an `auth.json` holds what that of a provider holds, where every number in that is an
/// integer.
pub open spec fn auth_is_kept(provider: ProviderModel, written: Seq<char>) -> bool {
    auth_object(provider_auth(provider)) matches Ok(auth) ==> wire::has_integers_only(auth)
        ==> auth_object(written) == Ok::<JsonView, Seq<char>>(auth)
}

/// The view of an outcome that is a pair of files or a message.
pub open spec fn result_live(res: Result<LiveConfig, String>) -> Result<
    (Seq<char>, Seq<char>),
    Seq<char>,
> {
    match res {
        Ok(live) => Ok((live.auth_text@, live.config_text@)),
        Err(message) => Err(message@),
    }
}

/// The `auth.json` and the `config.toml` of a provider. Where every number in the `auth.json` is
/// an integer, what is written is read back as what was given. A generated `config.toml` is read
/// as what the fields say, and generated files are always in order.
pub fn codex_live_config(provider: &CodexProvider) -> (res: Result<LiveConfig, String>)
    ensures
        result_live(res) == live_files(provider@),
        res matches Ok(live) ==> auth_is_kept(provider@, live.auth_text@),
        res matches Ok(live) ==> config_is_kept(provider@, live.config_text@),
        files_are_generated(provider@) ==> res is Ok,
{
    let config_text = render_provider_config(provider);
    proof {
        if config_is_generated(provider@) && is_writable(provider@) {
            let key = key_from(provider@.name);
            lemma_config_is_plain_document(provider@, key);
            lemma_generated_not_blank(provider@, key);
        }
    }
    if !text::trimmed(config_text.as_str()).is_empty() {
        if let Err(message) = check_config(config_text.as_str()) {
            return Err(message);
        }
    }
    let auth = match read_auth(render_provider_auth_text(provider).as_str()) {
        Ok(auth) => auth,
        Err(message) => {
            return Err(message);
        },
    };
    proof {
        if wire::has_integers_only(auth@) {
            let depth = choose|depth: nat| #[trigger] wire::is_plain(auth@, depth);
            wire::lemma_plain_within(auth@, depth, wire::READABLE_DEPTH as nat);
        }
    }
    match wire::pretty_text(&auth) {
        Ok(auth_text) => Ok(LiveConfig { auth_text, config_text }),
        Err(message) => Err(text::cat("编码 Codex auth.json 失败：", message.as_str())),
    }
}

/// What is reported of an id that no provider has.
pub open spec fn unknown_provider(id: Seq<char>) -> Seq<char> {
    "找不到 Codex 供应商："@ + id
}

/// The outcome of putting a provider to use: what is written, or why nothing is.
pub open spec fn activation(store: StoreModel, id: Seq<char>) -> Result<
    (Seq<char>, Seq<char>),
    Seq<char>,
> {
    let at = place_of(store.providers, id);
    if at < store.providers.len() {
        live_files(store.providers[at])
    } else {
        Err(unknown_provider(id))
    }
}

/// Puts a provider to use: tells what has to be written for Codex, and remembers its id. A
/// provider that is kept and whose files are generated can always be put to use.
pub fn activate_provider(store: &mut ProviderStore, id: &str) -> (res: Result<
    (CodexProviderView, LiveConfig),
    String,
>)
    ensures
        match activation(old(store)@, id@) {
            Ok(files) => {
                &&& res is Ok
                &&& result_live(Ok::<LiveConfig, String>(res->Ok_0.1)) == Ok::<
                    (Seq<char>, Seq<char>),
                    Seq<char>,
                >(files)
                &&& res->Ok_0.0@ == shown(
                    old(store)@.providers[place_of(old(store)@.providers, id@)],
                    Some(id@),
                )
                &&& auth_is_kept(
                    old(store)@.providers[place_of(old(store)@.providers, id@)],
                    res->Ok_0.1.auth_text@,
                )
                &&& config_is_kept(
                    old(store)@.providers[place_of(old(store)@.providers, id@)],
                    res->Ok_0.1.config_text@,
                )
                &&& final(store)@ == (StoreModel { active_id: Some(id@), ..old(store)@ })
            },
            Err(message) => {
                &&& res is Err
                &&& res->Err_0@ == message
                &&& final(store)@ == old(store)@
            },
        },
        ({
            let at = place_of(old(store)@.providers, id@);
            at < old(store)@.providers.len() && files_are_generated(old(store)@.providers[at])
        }) ==> res is Ok,
{
    let at = find_place(&store.providers, id);
    proof {
        lemma_place_found(store@.providers, id@);
    }
    if at >= store.providers.len() {
        return Err(text::cat("找不到 Codex 供应商：", id));
    }
    let live = match codex_live_config(&store.providers[at]) {
        Ok(live) => live,
        Err(message) => {
            return Err(message);
        },
    };
    let ghost before = store@;
    store.active_id = Some(id.to_owned());
    let view = to_view(&store.providers[at], &store.active_id);
    assert(store@ =~= (StoreModel { active_id: Some(id@), ..before }));
    Ok((view, live))
}

/// The path of the configuration file, which holds the store.
pub fn default_store_path() -> (res: Result<HostPath, String>)
    ensures
        exists|home: Option<PathModel>|
            workdir::result_path(res) == #[trigger] config::config_path(home),
{
    config::default_config_path()
}

/// The directory of Codex.
pub open spec fn codex_dir(home: Option<PathModel>) -> Result<PathModel, Seq<char>> {
    match home {
        Some(home) => Ok(workdir::host_join(home, ".codex"@)),
        None => Err("无法定位用户 HOME 目录"@),
    }
}

/// The directory of Codex in the given home directory.
pub fn codex_dir_in(home: Option<HostPath>) -> (res: Result<HostPath, String>)
    ensures
        workdir::result_path(res) == codex_dir(workdir::opt_path(home)),
{
    match home {
        Some(home) => Ok(home.join(".codex")),
        None => Err("无法定位用户 HOME 目录".to_owned()),
    }
}

/// The directory of Codex.
pub fn default_codex_dir() -> (res: Result<HostPath, String>)
    ensures
        exists|home: Option<PathModel>| workdir::result_path(res) == #[trigger] codex_dir(home),
{
    codex_dir_in(workdir::home_dir())
}

// ---------------------------------------------------------------------------
// Laws
// ---------------------------------------------------------------------------

/// White space around a text does not matter for its key.
pub proof fn law_key_ignores_white_space_around(
    before: Seq<char>,
    value: Seq<char>,
    after: Seq<char>,
)
    requires
        text::is_blank(before),
        text::is_blank(after),
    ensures
        key_from(before + value + after) == key_from(value),
{
    text::lemma_trim_padded(before, value, after);
}

/// What a TOML string says that begins with `s`, after its opening quote, and what comes after
/// its closing quote.
pub open spec fn quoted_in(s: Seq<char>) -> Option<(Seq<char>, Seq<char>)>
    decreases s.len(),
{
    if s.len() == 0 {
        None
    } else if s[0] == '"' {
        Some((seq![], s.skip(1)))
    } else if s[0] == '\\' {
        if s.len() > 1 && (s[1] == '\\' || s[1] == '"') {
            match quoted_in(s.skip(2)) {
                Some((said, rest)) => Some((seq![s[1]] + said, rest)),
                None => None,
            }
        } else {
            None
        }
    } else {
        match quoted_in(s.skip(1)) {
            Some((said, rest)) => Some((seq![s[0]] + said, rest)),
            None => None,
        }
    }
}

/// A text is escaped from its start as well as from its end.
proof fn lemma_escaped_from_start(s: Seq<char>)
    requires
        s.len() > 0,
    ensures
        toml_text::toml_escaped(s) == toml_text::toml_char(s[0]) + toml_text::toml_escaped(s.skip(1)),
    decreases s.len(),
{
    let rest = s.skip(1);
    if s.len() > 1 {
        let front = s.drop_last();
        lemma_escaped_from_start(front);
        assert(front.skip(1) =~= rest.drop_last());
        assert(front[0] == s[0]);
        assert(rest.last() == s.last());
        assert(toml_text::toml_escaped(s) =~= toml_text::toml_char(s[0]) + toml_text::toml_escaped(rest));
    } else {
        assert(s.drop_last() =~= seq![]);
        assert(rest =~= seq![]);
        assert(toml_text::toml_escaped(s) =~= toml_text::toml_char(s[0]) + toml_text::toml_escaped(rest));
    }
}

/// A text that is escaped and quoted says the text, and ends at the quote that was put after it.
pub proof fn law_quoted_text_is_read_back(s: Seq<char>, rest: Seq<char>)
    ensures
        quoted_in(toml_text::toml_escaped(s) + seq!['"'] + rest) == Some((s, rest)),
    decreases s.len(),
{
    let quoted = toml_text::toml_escaped(s) + seq!['"'] + rest;
    if s.len() == 0 {
        assert(quoted =~= seq!['"'] + rest);
        assert(quoted.skip(1) =~= rest);
        assert(s =~= seq![]);
    } else {
        let after = s.skip(1);
        lemma_escaped_from_start(s);
        law_quoted_text_is_read_back(after, rest);
        let tail = toml_text::toml_escaped(after) + seq!['"'] + rest;
        assert(quoted =~= toml_text::toml_char(s[0]) + tail);
        assert(seq![s[0]] + after =~= s);
        if s[0] == '\\' || s[0] == '"' {
            assert(quoted.skip(2) =~= tail);
        } else {
            assert(quoted.skip(1) =~= tail);
        }
    }
}

/// Texts that are escaped alike are the same.
pub proof fn law_escape_is_injective(a: Seq<char>, b: Seq<char>)
    requires
        toml_text::toml_escaped(a) == toml_text::toml_escaped(b),
    ensures
        a == b,
{
    law_quoted_text_is_read_back(a, seq![]);
    law_quoted_text_is_read_back(b, seq![]);
}

/// Escaping adds no line break.
proof fn lemma_escaped_on_one_line(s: Seq<char>)
    requires
        !s.contains('\n'),
    ensures
        !toml_text::toml_escaped(s).contains('\n'),
    decreases s.len(),
{
    if s.len() > 0 {
        let front = s.drop_last();
        assert(!front.contains('\n')) by {
            if front.contains('\n') {
                let i = choose|i: int| 0 <= i < front.len() && front[i] == '\n';
                assert(s[i] == '\n');
            }
        }
        lemma_escaped_on_one_line(front);
        let escaped = toml_text::toml_escaped(s);
        let before = toml_text::toml_escaped(front);
        assert(s[s.len() - 1] != '\n');
        assert forall|i: int| 0 <= i < escaped.len() implies escaped[i] != '\n' by {
            if i < before.len() {
                assert(escaped[i] == before[i]);
            } else {
                assert(escaped[i] == toml_text::toml_char(s.last())[i - before.len()]);
            }
        }
    }
}

/// The lines of a text of lines are the lines, and nothing comes after the last line break.
proof fn lemma_lines_split(lines: Seq<Seq<char>>)
    requires
        forall|i: int| 0 <= i < lines.len() ==> !(#[trigger] lines[i]).contains('\n'),
    ensures
        text::split(toml_text::lines_text(lines), '\n') == lines.push(seq![]),
    decreases lines.len(),
{
    let empty = Seq::<char>::empty();
    if lines.len() > 0 {
        let front = lines.drop_last();
        let line = lines.last();
        assert forall|i: int| 0 <= i < front.len() implies !(#[trigger] front[i]).contains(
            '\n',
        ) by {
            assert(front[i] == lines[i]);
        }
        lemma_lines_split(front);
        let before = toml_text::lines_text(front);
        assert(!lines[lines.len() - 1].contains('\n'));
        text::lemma_split_append(before, line, '\n');
        let joined = before + line;
        assert(empty + line =~= line);
        assert(text::split(joined, '\n') =~= lines);
        let ended = joined.push('\n');
        assert(ended =~= before + line.push('\n'));
        assert(ended.drop_last() =~= joined);
        assert(text::split(ended, '\n') =~= lines.push(empty));
    } else {
        assert(lines.push(empty) =~= seq![empty]);
    }
}

/// None of the lines that are generated holds a line break.
proof fn lemma_config_lines(provider: ProviderModel, key: Seq<char>)
    requires
        is_key(key),
        !provider.model.contains('\n'),
        !provider.base_url.contains('\n'),
    ensures
        forall|i: int|
            0 <= i < config_lines(provider, key).len() ==> !(#[trigger] config_lines(
                provider,
                key,
            )[i]).contains('\n'),
{
    lemma_escaped_on_one_line(provider.model);
    lemma_escaped_on_one_line(provider.base_url);
    assert(!key.contains('\n')) by {
        assert forall|i: int| 0 <= i < key.len() implies key[i] != '\n' by {}
    }
    let digits = text::decimal(token_limit(provider) as nat);
    text::lemma_decimal_digits(token_limit(provider) as nat);
    assert(!digits.contains('\n')) by {
        assert forall|i: int| 0 <= i < digits.len() implies digits[i] != '\n' by {}
    }
    reveal_strlit("model_provider = \"");
    reveal_strlit("\"");
    reveal_strlit(" = \"");
    reveal_strlit("model");
    reveal_strlit("model_reasoning_effort = \"high\"");
    reveal_strlit("disable_response_storage = true");
    reveal_strlit("model_context_window = 1000000");
    reveal_strlit("model_auto_compact_token_limit = ");
    reveal_strlit("[model_providers.");
    reveal_strlit("]");
    reveal_strlit("name = \"");
    reveal_strlit("base_url");
    reveal_strlit("env_key = \"OPENAI_API_KEY\"");
    reveal_strlit("wire_api = \"responses\"");
    reveal_strlit("requires_openai_auth = true");
}

/// The lines of a generated `config.toml` are those that are meant, where no value holds a line
/// break.
pub proof fn law_generated_config_has_its_lines(provider: ProviderModel, key: Seq<char>)
    requires
        is_key(key),
        !provider.model.contains('\n'),
        !provider.base_url.contains('\n'),
    ensures
        text::split(generated_config(provider, key), '\n') == config_lines(provider, key).push(
            seq![],
        ),
{
    lemma_config_lines(provider, key);
    lemma_lines_split(config_lines(provider, key));
}

/// A key is written as it stands.
proof fn lemma_key_escaped(key: Seq<char>)
    requires
        forall|i: int| 0 <= i < key.len() ==> #[trigger] key[i] != '\\' && key[i] != '"',
    ensures
        toml_text::toml_escaped(key) == key,
    decreases key.len(),
{
    if key.len() > 0 {
        let front = key.drop_last();
        assert forall|i: int| 0 <= i < front.len() implies #[trigger] front[i] != '\\'
            && front[i] != '"' by {
            assert(front[i] == key[i]);
        }
        lemma_key_escaped(front);
        assert(key[key.len() - 1] != '\\');
        assert(front + seq![key.last()] =~= key);
    } else {
        assert(key =~= seq![]);
    }
}

/// A line that gives a text is a line of a TOML document.
proof fn lemma_text_line(name: Seq<char>, value: Seq<char>)
    ensures
        text_line(name, value) == toml_text::entry_line((name, TomlView::Text(value))),
{
    reveal_strlit(" = \"");
    reveal_strlit(" = ");
    reveal_strlit("\"");
    assert(" = \""@ =~= " = "@ + "\""@);
    assert(text_line(name, value) =~= toml_text::entry_line((name, TomlView::Text(value))));
}

/// A line that gives the key of a provider is a line of a TOML document.
proof fn lemma_key_line(start: Seq<char>, name: Seq<char>, key: Seq<char>)
    requires
        is_key(key),
        start == name + " = \""@,
    ensures
        start + key + "\""@ == toml_text::entry_line((name, TomlView::Text(key))),
{
    lemma_text_line(name, key);
    lemma_key_escaped(key);
}

/// The lines of the generated `config.toml` are those of a TOML document.
proof fn lemma_config_is_document(provider: ProviderModel, key: Seq<char>)
    requires
        is_key(key),
    ensures
        generated_config(provider, key) == toml_text::toml_document(
            root_entries(provider, key),
            "model_providers"@,
            key,
            inner_entries(provider, key),
        ),
{
    let root = root_entries(provider, key);
    let inner = inner_entries(provider, key);
    reveal_strlit("\"");
    reveal_strlit(" = \"");
    reveal_strlit(" = ");
    reveal_strlit("true");
    assert("model_provider = \""@ =~= "model_provider"@ + " = \""@) by {
        reveal_strlit("model_provider = \"");
        reveal_strlit("model_provider");
    }
    lemma_key_line("model_provider = \""@, "model_provider"@, key);
    lemma_text_line("model"@, provider.model);
    let high = toml_text::entry_line(("model_reasoning_effort"@, TomlView::Text("high"@)));
    assert("model_reasoning_effort = \"high\""@ =~= high) by {
        reveal_strlit("model_reasoning_effort = \"high\"");
        reveal_strlit("model_reasoning_effort");
        reveal_strlit("high");
        lemma_key_escaped("high"@);
    }
    let storage = toml_text::entry_line(("disable_response_storage"@, TomlView::Flag(true)));
    assert("disable_response_storage = true"@ =~= storage) by {
        reveal_strlit("disable_response_storage = true");
        reveal_strlit("disable_response_storage");
    }
    let window = toml_text::entry_line(("model_context_window"@, TomlView::Integer(1_000_000)));
    assert("model_context_window = 1000000"@ =~= window) by {
        reveal_strlit("model_context_window = 1000000");
        reveal_strlit("model_context_window");
        reveal_with_fuel(text::decimal, 8);
        assert(text::decimal(1_000_000) =~= seq!['1', '0', '0', '0', '0', '0', '0']);
    }
    let limit = token_limit(provider);
    assert("model_auto_compact_token_limit = "@ =~= "model_auto_compact_token_limit"@ + " = "@) by {
        reveal_strlit("model_auto_compact_token_limit = ");
        reveal_strlit("model_auto_compact_token_limit");
    }
    let header = "["@ + "model_providers"@ + "."@ + key + "]"@;
    assert("[model_providers."@ + key + "]"@ =~= header) by {
        reveal_strlit("[model_providers.");
        reveal_strlit("[");
        reveal_strlit("model_providers");
        reveal_strlit(".");
        assert("[model_providers."@ =~= "["@ + "model_providers"@ + "."@);
    }
    assert("name = \""@ =~= "name"@ + " = \""@) by {
        reveal_strlit("name = \"");
        reveal_strlit("name");
    }
    lemma_key_line("name = \""@, "name"@, key);
    lemma_text_line("base_url"@, provider.base_url);
    let env = toml_text::entry_line(("env_key"@, TomlView::Text("OPENAI_API_KEY"@)));
    assert("env_key = \"OPENAI_API_KEY\""@ =~= env) by {
        reveal_strlit("env_key = \"OPENAI_API_KEY\"");
        reveal_strlit("env_key");
        reveal_strlit("OPENAI_API_KEY");
        lemma_key_escaped("OPENAI_API_KEY"@);
    }
    let wire_api = toml_text::entry_line(("wire_api"@, TomlView::Text("responses"@)));
    assert("wire_api = \"responses\""@ =~= wire_api) by {
        reveal_strlit("wire_api = \"responses\"");
        reveal_strlit("wire_api");
        reveal_strlit("responses");
        lemma_key_escaped("responses"@);
    }
    let auth = toml_text::entry_line(("requires_openai_auth"@, TomlView::Flag(true)));
    assert("requires_openai_auth = true"@ =~= auth) by {
        reveal_strlit("requires_openai_auth = true");
        reveal_strlit("requires_openai_auth");
    }
    let middle = seq![seq![], header];
    assert(config_lines(provider, key) =~= toml_text::entry_lines(root) + middle
        + toml_text::entry_lines(inner));
}

/// The names in a generated `config.toml` are keys, and tell each other apart.
proof fn lemma_entry_names()
    ensures
        toml_text::is_bare_key("model_provider"@),
        "model_provider"@.len() == 14,
        toml_text::is_bare_key("model"@),
        "model"@.len() == 5,
        toml_text::is_bare_key("model_reasoning_effort"@),
        "model_reasoning_effort"@.len() == 22,
        toml_text::is_bare_key("disable_response_storage"@),
        "disable_response_storage"@.len() == 24,
        toml_text::is_bare_key("model_context_window"@),
        "model_context_window"@.len() == 20,
        toml_text::is_bare_key("model_auto_compact_token_limit"@),
        "model_auto_compact_token_limit"@.len() == 30,
        toml_text::is_bare_key("model_providers"@),
        "model_providers"@.len() == 15,
        toml_text::is_bare_key("name"@),
        "name"@.len() == 4,
        toml_text::is_bare_key("base_url"@),
        "base_url"@.len() == 8,
        toml_text::is_bare_key("env_key"@),
        "env_key"@.len() == 7,
        toml_text::is_bare_key("wire_api"@),
        "wire_api"@.len() == 8,
        toml_text::is_bare_key("requires_openai_auth"@),
        "requires_openai_auth"@.len() == 20,
        "base_url"@ != "wire_api"@,
{
    reveal_strlit("model_provider");
    reveal_strlit("model");
    reveal_strlit("model_reasoning_effort");
    reveal_strlit("disable_response_storage");
    reveal_strlit("model_context_window");
    reveal_strlit("model_auto_compact_token_limit");
    reveal_strlit("model_providers");
    reveal_strlit("name");
    reveal_strlit("base_url");
    reveal_strlit("env_key");
    reveal_strlit("wire_api");
    reveal_strlit("requires_openai_auth");
    assert("base_url"@[0] != "wire_api"@[0]);
}

/// The keys of the generated `config.toml` are different, and none is that of its table.
proof fn lemma_config_keys(provider: ProviderModel, key: Seq<char>)
    ensures
        ({
            let root = root_entries(provider, key);
            let inner = inner_entries(provider, key);
            &&& forall|i: int, j: int|
                0 <= i < j < root.len() ==> (#[trigger] root[i]).0 != (#[trigger] root[j]).0
            &&& forall|i: int, j: int|
                0 <= i < j < inner.len() ==> (#[trigger] inner[i]).0 != (#[trigger] inner[j]).0
            &&& !toml_text::entries_map(root).contains_key("model_providers"@)
        }),
{
    lemma_entry_names();
    toml_text::lemma_entries_map(root_entries(provider, key));
}

/// The generated `config.toml` is a plain TOML document.
proof fn lemma_config_is_plain_document(provider: ProviderModel, key: Seq<char>)
    requires
        is_key(key),
        is_writable(provider),
    ensures
        toml_text::is_plain_document(
            root_entries(provider, key),
            "model_providers"@,
            key,
            inner_entries(provider, key),
        ),
        generated_config(provider, key) == toml_text::toml_document(
            root_entries(provider, key),
            "model_providers"@,
            key,
            inner_entries(provider, key),
        ),
{
    lemma_config_is_document(provider, key);
    lemma_config_keys(provider, key);
    lemma_entry_names();
    reveal_strlit("high");
    reveal_strlit("OPENAI_API_KEY");
    reveal_strlit("responses");
    assert(toml_text::has_no_control(key)) by {
        assert forall|i: int| 0 <= i < key.len() implies #[trigger] key[i] >= ' ' && key[i]
            != '\u{7f}' by {}
    }
}

/// The generated `config.toml` is not blank.
proof fn lemma_generated_not_blank(provider: ProviderModel, key: Seq<char>)
    ensures
        text::trim(generated_config(provider, key)).len() > 0,
{
    let lines = config_lines(provider, key);
    let s = generated_config(provider, key);
    reveal_strlit("requires_openai_auth = true");
    assert(lines.last() == "requires_openai_auth = true"@);
    assert(s == toml_text::lines_text(lines.drop_last()) + lines.last().push('\n'));
    assert(s[s.len() - 2] == 'e');
    text::lemma_trim_blank(s);
}

/// Whether a line of `s` begins with `start`.
pub open spec fn has_line_with(s: Seq<char>, start: Seq<char>) -> bool {
    exists|i: int|
        0 <= i < text::split(s, '\n').len() && text::has_prefix(
            #[trigger] text::split(s, '\n')[i],
            start,
        )
}

/// A line that differs from the start of another at some place does not begin with it.
proof fn lemma_begins_otherwise(line: Seq<char>, start: Seq<char>, at: int)
    requires
        0 <= at < start.len(),
        at < line.len() ==> line[at] != start[at],
    ensures
        !text::has_prefix(line, start),
{
    if text::has_prefix(line, start) {
        assert(line.take(start.len() as int)[at] == line[at]);
    }
}

/// Without a large context window no line of a generated `config.toml` begins with one of the
/// names that tell of one.
proof fn lemma_no_window_lines(provider: ProviderModel, key: Seq<char>, start: Seq<char>)
    requires
        is_key(key),
        !provider.model.contains('\n'),
        !provider.base_url.contains('\n'),
        !provider.context_window_1m,
        start == "model_context_window"@ || start == "model_auto_compact_token_limit"@,
    ensures
        !has_line_with(generated_config(provider, key), start),
{
    law_generated_config_has_its_lines(provider, key);
    let lines = text::split(generated_config(provider, key), '\n');
    reveal_strlit("model_context_window");
    reveal_strlit("model_auto_compact_token_limit");
    reveal_strlit("model_provider = \"");
    reveal_strlit(" = \"");
    reveal_strlit("model");
    reveal_strlit("model_reasoning_effort = \"high\"");
    reveal_strlit("disable_response_storage = true");
    reveal_strlit("[model_providers.");
    reveal_strlit("name = \"");
    reveal_strlit("base_url");
    reveal_strlit("env_key = \"OPENAI_API_KEY\"");
    reveal_strlit("wire_api = \"responses\"");
    reveal_strlit("requires_openai_auth = true");
    assert forall|i: int| 0 <= i < lines.len() implies !text::has_prefix(
        #[trigger] lines[i],
        start,
    ) by {
        let line = lines[i];
        let at = if i == 0 || i == 2 {
            6int
        } else if i == 1 {
            5int
        } else {
            0int
        };
        if i == 0 {
            assert(line[6] == "model_provider = \""@[6]);
        } else if i == 1 {
            assert(line[5] == " = \""@[0]);
        } else if i == 5 {
            assert(line[0] == "[model_providers."@[0]);
        } else if i == 6 {
            assert(line[0] == "name = \""@[0]);
        } else if i == 7 {
            assert(line[0] == "base_url"@[0]);
        }
        lemma_begins_otherwise(line, start, at);
    }
}

/// A generated `config.toml` has lines on the context window and on the limit on tokens exactly
/// where a large window is asked for, where no value holds a line break; the window is that of a
/// million tokens, and the limit the given one or 900000.
pub proof fn law_window_is_told_where_it_is_set(provider: ProviderModel, key: Seq<char>)
    requires
        is_key(key),
        !provider.model.contains('\n'),
        !provider.base_url.contains('\n'),
    ensures
        has_line_with(generated_config(provider, key), "model_context_window"@)
            <==> provider.context_window_1m,
        has_line_with(generated_config(provider, key), "model_auto_compact_token_limit"@)
            <==> provider.context_window_1m,
        provider.context_window_1m ==> ({
            let lines = text::split(generated_config(provider, key), '\n');
            let limit = match provider.auto_compact_token_limit {
                Some(limit) => limit,
                None => 900_000,
            };
            &&& lines.contains("model_context_window = 1000000"@)
            &&& lines.contains("model_auto_compact_token_limit = "@ + text::decimal(limit as nat))
        }),
{
    if provider.context_window_1m {
        law_generated_config_has_its_lines(provider, key);
        let lines = text::split(generated_config(provider, key), '\n');
        let meant = config_lines(provider, key);
        let window = "model_context_window"@;
        let limit = "model_auto_compact_token_limit"@;
        reveal_strlit("model_context_window");
        reveal_strlit("model_context_window = 1000000");
        reveal_strlit("model_auto_compact_token_limit");
        reveal_strlit("model_auto_compact_token_limit = ");
        assert(lines[4] == meant[4]);
        assert(lines[5] == meant[5]);
        assert(meant[4] == "model_context_window = 1000000"@);
        assert(meant[4].take(window.len() as int) =~= window);
        assert(meant[5].take(limit.len() as int) =~= limit);
        assert(text::has_prefix(text::split(generated_config(provider, key), '\n')[4], window));
        assert(text::has_prefix(text::split(generated_config(provider, key), '\n')[5], limit));
    } else {
        lemma_no_window_lines(provider, key, "model_context_window"@);
        lemma_no_window_lines(provider, key, "model_auto_compact_token_limit"@);
    }
}

/// The table of a generated `config.toml` names the provider and the model, holds the one
/// provider with its address, and tells of a large context window exactly where one is asked
/// for.
pub proof fn law_generated_table_says_the_fields(provider: ProviderModel, key: Seq<char>)
    ensures
        ({
            let table = generated_table(provider, key);
            let limit = match provider.auto_compact_token_limit {
                Some(limit) => limit,
                None => 900_000,
            };
            &&& table.contains_key("model_provider"@)
            &&& table["model_provider"@] == TomlView::Text(key)
            &&& table.contains_key("model"@)
            &&& table["model"@] == TomlView::Text(provider.model)
            &&& table.contains_key("model_providers"@)
            &&& table["model_providers"@] matches TomlView::Table(providers)
            &&& providers.dom() == set![key]
            &&& providers[key] matches TomlView::Table(inner)
            &&& inner.contains_key("base_url"@)
            &&& inner["base_url"@] == TomlView::Text(provider.base_url)
            &&& table.contains_key("model_context_window"@) == provider.context_window_1m
            &&& table.contains_key("model_auto_compact_token_limit"@) == provider.context_window_1m
            &&& provider.context_window_1m ==> table["model_context_window"@] == TomlView::Integer(
                1_000_000,
            ) && table["model_auto_compact_token_limit"@] == TomlView::Integer(limit as int)
        }),
{
    let root = root_entries(provider, key);
    let inner = inner_entries(provider, key);
    lemma_entry_names();
    lemma_config_keys(provider, key);
    toml_text::lemma_entries_map(root);
    toml_text::lemma_entries_map(inner);
    let table = generated_table(provider, key);
    assert(root[0].0 == "model_provider"@);
    assert(root[1].0 == "model"@);
    assert(inner[1].0 == "base_url"@);
    if provider.context_window_1m {
        assert(root[4].0 == "model_context_window"@);
        assert(root[5].0 == "model_auto_compact_token_limit"@);
    }
    let providers = map![key => TomlView::Table(toml_text::entries_map(inner))];
    assert(providers.dom() =~= set![key]);
}

/// A text that has no ASCII letter or digit in lowercase gets the key `custom`.
pub proof fn law_no_letters_make_custom(value: Seq<char>)
    requires
        !has_alphanumeric(lowercase(text::trim(value))),
    ensures
        key_from(value) == "custom"@,
{
    lemma_custom_key(lowercase(text::trim(value)));
}

/// What is shown of a secret tells its length and, of a long one, its last four characters:
/// secrets that agree on these are shown alike, and all else that is shown is asterisks.
pub proof fn law_mask_hides_the_secret(a: Seq<char>, b: Seq<char>)
    requires
        a.len() == b.len(),
        a.len() > 8 ==> a.skip(a.len() - 4) == b.skip(b.len() - 4),
    ensures
        masked(a) == masked(b),
        masked(a).len() >= a.len(),
        forall|i: int|
            0 <= i < masked(a).len() - (if a.len() > 8 { 4int } else { 0int })
                ==> #[trigger] masked(a)[i] == '*',
{
}

/// Whether the provider in use, if any, is kept in the store.
pub open spec fn active_is_kept(store: StoreModel) -> bool {
    match store.active_id {
        Some(id) => exists|i: int|
            0 <= i < store.providers.len() && (#[trigger] store.providers[i]).id == id,
        None => true,
    }
}

/// Whether no two providers in the store have the same id.
pub open spec fn ids_differ(store: StoreModel) -> bool {
    forall|i: int, j: int|
        0 <= i < j < store.providers.len() ==> (#[trigger] store.providers[i]).id
            != (#[trigger] store.providers[j]).id
}

/// A provider that was saved is found under its id, as it was merged; all others stay as they
/// are and where they are; ids stay different; the provider in use stays in use, or the first
/// one comes into use.
pub proof fn law_saving(store: StoreModel, provider: ProviderModel)
    ensures
        ({
            let after = with_provider(store, provider);
            let entry = merged(store, provider);
            let at = place_of(store.providers, entry.id);
            &&& 0 <= at < after.providers.len()
            &&& place_of(after.providers, entry.id) == at
            &&& after.providers[at] == entry
            &&& forall|i: int|
                0 <= i < store.providers.len() && i != at ==> #[trigger] after.providers[i]
                    == store.providers[i]
            &&& after.providers.len() <= store.providers.len() + 1
            &&& ids_differ(store) ==> ids_differ(after)
            &&& active_is_kept(store) ==> active_is_kept(after)
            &&& store.active_id is Some ==> after.active_id == store.active_id
            &&& after.active_id is Some
        }),
{
    let after = with_provider(store, provider);
    let entry = merged(store, provider);
    let at = place_of(store.providers, entry.id);
    lemma_place_found(store.providers, entry.id);
    assert(entry.id == id_of(provider.id, provider.name));
    assert forall|k: int| 0 <= k < at implies (#[trigger] after.providers[k]).id != entry.id by {
        assert(after.providers[k] == store.providers[k]);
    }
    lemma_place(after.providers, entry.id, at);
    if ids_differ(store) {
        assert forall|i: int, j: int|
            0 <= i < j < after.providers.len() implies (#[trigger] after.providers[i]).id
            != (#[trigger] after.providers[j]).id by {
            if i != at && j != at {
                assert(store.providers[i].id != store.providers[j].id);
            } else if i == at {
                assert(store.providers[at].id == entry.id);
                assert(store.providers[at].id != store.providers[j].id);
            } else {
                assert(after.providers[i] == store.providers[i]);
            }
        }
    }
    if active_is_kept(store) {
        match store.active_id {
            Some(id) => {
                let i = choose|i: int|
                    0 <= i < store.providers.len() && (#[trigger] store.providers[i]).id == id;
                assert(after.providers[i].id == id);
            },
            None => {
                assert(after.providers[at].id == entry.id);
            },
        }
    }
}

/// Saving a provider that is kept already, with its key and its `auth.json` left blank, keeps
/// both.
pub proof fn law_blank_secrets_are_kept(store: StoreModel, provider: ProviderModel)
    requires
        place_of(store.providers, id_of(provider.id, provider.name)) < store.providers.len(),
        filled(provider.api_key) is None,
        filled(provider.auth_text) is None,
    ensures
        ({
            let at = place_of(store.providers, id_of(provider.id, provider.name));
            let after = with_provider(store, provider).providers[at];
            &&& after.api_key == store.providers[at].api_key
            &&& after.auth_text == store.providers[at].auth_text
            &&& after.base_url == provider.base_url
            &&& after.model == provider.model
        }),
{
    lemma_place_found(store.providers, id_of(provider.id, provider.name));
}

/// What a filter keeps was there, and what fits it is kept, in the same order.
proof fn lemma_filtered(providers: Seq<ProviderModel>, id: Seq<char>)
    ensures
        ({
            let left = providers.filter(|provider: ProviderModel| provider.id != id);
            &&& forall|i: int| 0 <= i < left.len() ==> (#[trigger] left[i]).id != id
            &&& forall|i: int|
                0 <= i < left.len() ==> providers.contains(#[trigger] left[i])
            &&& forall|i: int|
                0 <= i < providers.len() && (#[trigger] providers[i]).id != id ==> left.contains(
                    providers[i],
                )
            &&& ids_differ(StoreModel { active_id: None, providers }) ==> ids_differ(
                StoreModel { active_id: None, providers: left },
            )
        }),
    decreases providers.len(),
{
    let keep = |provider: ProviderModel| provider.id != id;
    reveal(Seq::filter);
    if providers.len() > 0 {
        let front = providers.drop_last();
        lemma_filtered(front, id);
        let before = front.filter(keep);
        let left = providers.filter(keep);
        assert(forall|i: int| 0 <= i < front.len() ==> front[i] == providers[i]);
        assert forall|i: int| 0 <= i < left.len() implies providers.contains(#[trigger] left[i]) by {
            if i < before.len() {
                assert(left[i] == before[i]);
                assert(front.contains(before[i]));
                let k = choose|k: int| 0 <= k < front.len() && front[k] == before[i];
                assert(providers[k] == left[i]);
            } else {
                assert(providers[providers.len() - 1] == left[i]);
            }
        }
        assert forall|i: int|
            0 <= i < providers.len() && (#[trigger] providers[i]).id != id implies left.contains(
            providers[i],
        ) by {
            if i < front.len() {
                assert(front[i] == providers[i]);
                assert(before.contains(front[i]));
                let k = choose|k: int| 0 <= k < before.len() && before[k] == front[i];
                assert(left[k] == providers[i]);
            } else {
                assert(left[left.len() - 1] == providers[i]);
            }
        }
        if ids_differ(StoreModel { active_id: None, providers }) {
            assert forall|i: int, j: int| 0 <= i < j < front.len() implies (#[trigger] front[i]).id
                != (#[trigger] front[j]).id by {
                assert(providers[i].id != providers[j].id);
            }
            assert forall|i: int, j: int| 0 <= i < j < left.len() implies (#[trigger] left[i]).id
                != (#[trigger] left[j]).id by {
                if j < before.len() {
                    assert(before[i].id != before[j].id);
                } else {
                    assert(front.contains(before[i]));
                    let k = choose|k: int| 0 <= k < front.len() && front[k] == before[i];
                    assert(providers[k].id != providers[providers.len() - 1].id);
                }
            }
        }
    }
}

/// After deleting an id no provider has it and it is not in use; every other provider is kept,
/// ids stay different, and the provider in use is kept or the first one that is left.
pub proof fn law_deleting(store: StoreModel, id: Seq<char>)
    ensures
        ({
            let after = without_provider(store, id);
            &&& forall|i: int| 0 <= i < after.providers.len() ==> (#[trigger] after.providers[i]).id
                != id
            &&& forall|i: int|
                0 <= i < store.providers.len() && (#[trigger] store.providers[i]).id != id
                    ==> after.providers.contains(store.providers[i])
            &&& forall|i: int|
                0 <= i < after.providers.len() ==> store.providers.contains(
                    #[trigger] after.providers[i],
                )
            &&& after.active_id != Some(id)
            &&& ids_differ(store) ==> ids_differ(after)
            &&& active_is_kept(store) ==> active_is_kept(after)
        }),
{
    let after = without_provider(store, id);
    lemma_filtered(store.providers, id);
    if ids_differ(store) {
        assert(ids_differ(StoreModel { active_id: None, providers: store.providers }));
        assert(ids_differ(StoreModel { active_id: None, providers: after.providers }));
    }
    if active_is_kept(store) {
        if let Some(active) = store.active_id {
            if active == id {
                if after.providers.len() > 0 {
                    assert(after.providers[0].id == after.active_id->0);
                }
            } else {
                let i = choose|i: int|
                    0 <= i < store.providers.len() && (#[trigger] store.providers[i]).id
                        == active;
                assert(after.providers.contains(store.providers[i]));
                let k = choose|k: int|
                    0 <= k < after.providers.len() && after.providers[k] == store.providers[i];
                assert(after.providers[k].id == active);
            }
        }
    }
}

/// Putting a provider to use keeps the store consistent, and names a provider that is kept.
pub proof fn law_activating(store: StoreModel, id: Seq<char>)
    requires
        activation(store, id) is Ok,
    ensures
        active_is_kept(StoreModel { active_id: Some(id), ..store }),
        ids_differ(store) ==> ids_differ(StoreModel { active_id: Some(id), ..store }),
{
    lemma_place_found(store.providers, id);
    let at = place_of(store.providers, id);
    assert(store.providers[at].id == id);
}

/// The official provider writes an empty `config.toml`, and nothing of what its fields hold.
pub proof fn law_official_provider_writes_nothing_of_its_own(a: ProviderModel, b: ProviderModel)
    requires
        a.is_official,
        b.is_official,
    ensures
        provider_config(a).len() == 0,
        live_files(a) == live_files(b),
{
    text::lemma_trim_fixed(provider_config(a));
}

/// Whether the provider at a place is the first one with an id.
pub open spec fn stands_first(providers: Seq<ProviderModel>, at: int, id: Seq<char>) -> bool {
    &&& 0 <= at < providers.len()
    &&& providers[at].id == id
    &&& forall|k: int| 0 <= k < at ==> (#[trigger] providers[k]).id != id
}

/// Whether an optional text is there and not blank.
pub open spec fn is_filled(s: Option<Seq<char>>) -> bool {
    s matches Some(s) && !text::is_blank(s)
}

/// What is filled in is what is there and not blank.
proof fn lemma_filled(s: Option<Seq<char>>)
    ensures
        filled(s) is Some <==> is_filled(s),
        is_filled(s) ==> filled(s) == s,
        workdir::given(s) <==> is_filled(s),
{
    if let Some(s) = s {
        text::lemma_trim_blank(s);
    }
}

/// The id of a provider is the key of its id, or of its name where the id is blank.
pub proof fn law_id_is_a_key_of_id_or_name(
    id: &str,
    name: &str,
    res: String,
    id_key: String,
    name_key: String,
)
    requires
        call_ensures(normalize_id, (id, name), res),
        call_ensures(provider_key, (id,), id_key),
        call_ensures(provider_key, (name,), name_key),
    ensures
        text::is_blank(id@) ==> res@ == name_key@,
        !text::is_blank(id@) ==> res@ == id_key@,
        is_key(res@),
{
    text::lemma_trim_blank(id@);
}

/// A provider that was saved stands under its id with every field as it was given: its key and its
/// `auth.json` too, where they are not blank, whether or not a provider with the id was kept
/// before.
pub proof fn law_saved_provider_is_as_given(
    store: &mut ProviderStore,
    provider: CodexProvider,
    id: &str,
    name: &str,
    key: String,
    res: Result<CodexProviderView, String>,
)
    requires
        call_ensures(save_provider, (store, provider), res),
        id@ == provider@.id,
        name@ == provider@.name,
        call_ensures(normalize_id, (id, name), key),
        res is Ok,
    ensures
        exists|at: int|
            {
                let entry = final(store)@.providers[at];
                &&& #[trigger] stands_first(final(store)@.providers, at, key@)
                &&& entry.name == provider@.name
                &&& entry.base_url == provider@.base_url
                &&& entry.model == provider@.model
                &&& entry.config_text == provider@.config_text
                &&& entry.context_window_1m == provider@.context_window_1m
                &&& entry.auto_compact_token_limit == provider@.auto_compact_token_limit
                &&& entry.is_official == provider@.is_official
                &&& is_filled(provider@.api_key) ==> entry.api_key == provider@.api_key
                &&& is_filled(provider@.auth_text) ==> entry.auth_text == provider@.auth_text
            },
{
    lemma_filled(provider@.api_key);
    lemma_filled(provider@.auth_text);
    law_saving(old(store)@, provider@);
    let at = place_of(old(store)@.providers, key@);
    lemma_place_found(final(store)@.providers, key@);
    assert(stands_first(final(store)@.providers, at, key@));
}

/// Saving under an id that is kept takes the place of the first provider with the id, and of what
/// that one held only a key and an `auth.json` stay that are left blank, and whether it is in use.
pub proof fn law_saving_takes_the_place(
    store: &mut ProviderStore,
    provider: CodexProvider,
    id: &str,
    name: &str,
    key: String,
    at: int,
    res: Result<CodexProviderView, String>,
)
    requires
        call_ensures(save_provider, (store, provider), res),
        id@ == provider@.id,
        name@ == provider@.name,
        call_ensures(normalize_id, (id, name), key),
        res is Ok,
        stands_first(old(store)@.providers, at, key@),
    ensures
        ({
            let before = old(store)@.providers;
            let after = final(store)@.providers;
            &&& after.len() == before.len()
            &&& stands_first(after, at, key@)
            &&& !is_filled(provider@.api_key) ==> after[at].api_key == before[at].api_key
            &&& !is_filled(provider@.auth_text) ==> after[at].auth_text == before[at].auth_text
            &&& after[at].active == before[at].active
            &&& forall|i: int|
                0 <= i < before.len() && i != at ==> #[trigger] after[i] == before[i]
        }),
{
    lemma_filled(provider@.api_key);
    lemma_filled(provider@.auth_text);
    law_saving(old(store)@, provider@);
    lemma_place(old(store)@.providers, key@, at);
    lemma_place_found(final(store)@.providers, key@);
}

/// Saving under a new id adds the provider at the end, as it was given, and leaves all others
/// where they are.
pub proof fn law_new_provider_comes_last(
    store: &mut ProviderStore,
    provider: CodexProvider,
    id: &str,
    name: &str,
    key: String,
    res: Result<CodexProviderView, String>,
)
    requires
        call_ensures(save_provider, (store, provider), res),
        id@ == provider@.id,
        name@ == provider@.name,
        call_ensures(normalize_id, (id, name), key),
        res is Ok,
        forall|i: int|
            0 <= i < old(store)@.providers.len() ==> (#[trigger] old(store)@.providers[i]).id
                != key@,
    ensures
        final(store)@.providers == old(store)@.providers.push(
            ProviderModel { id: key@, ..provider@ },
        ),
{
    lemma_place(old(store)@.providers, key@, old(store)@.providers.len() as int);
}

/// Saving puts no other provider to use; where none is in use the one that is saved is.
pub proof fn law_saving_keeps_the_one_in_use(
    store: &mut ProviderStore,
    provider: CodexProvider,
    id: &str,
    name: &str,
    key: String,
    res: Result<CodexProviderView, String>,
)
    requires
        call_ensures(save_provider, (store, provider), res),
        id@ == provider@.id,
        name@ == provider@.name,
        call_ensures(normalize_id, (id, name), key),
        res is Ok,
    ensures
        old(store)@.active_id is Some ==> final(store)@.active_id == old(store)@.active_id,
        old(store)@.active_id is None ==> final(store)@.active_id == Some(key@),
        res matches Ok(view) && view@.id == key@ && view@.name == provider@.name && view@.active
            == (final(store)@.active_id == Some(key@)),
{
}

/// A provider that is refused changes nothing, and one without a name, or without an address or a
/// model where it is not the official one, is refused.
pub proof fn law_refused_provider_changes_nothing(
    store: &mut ProviderStore,
    provider: CodexProvider,
    res: Result<CodexProviderView, String>,
)
    requires
        call_ensures(save_provider, (store, provider), res),
    ensures
        res is Err ==> final(store)@ == old(store)@,
        text::is_blank(provider@.name) ==> res is Err,
        !provider@.is_official && (text::is_blank(provider@.base_url) || text::is_blank(
            provider@.model,
        )) ==> res is Err,
        provider@.is_official && !text::is_blank(provider@.name) ==> res is Ok,
{
    text::lemma_trim_blank(provider@.name);
    text::lemma_trim_blank(provider@.base_url);
    text::lemma_trim_blank(provider@.model);
}

/// What is wrong with a provider is told: a missing name first, for all but the official one then
/// a missing address, a missing model, a `config.toml` or an `auth.json` that cannot be read, and
/// a missing key.
pub proof fn law_provider_is_checked(
    provider: &CodexProvider,
    written: String,
    res: Result<(), String>,
)
    requires
        call_ensures(validate_provider, (provider,), res),
        call_ensures(render_provider_auth_text, (provider,), written),
    ensures
        ({
            let said = message_of(res);
            let named = !text::is_blank(provider@.name);
            let custom = named && !provider@.is_official;
            let addressed = custom && !text::is_blank(provider@.base_url);
            let modelled = addressed && !text::is_blank(provider@.model);
            let plain = modelled && !is_filled(provider@.config_text);
            &&& !named ==> said == Some("供应商名称不能为空"@)
            &&& named && provider@.is_official ==> said is None
            &&& custom && text::is_blank(provider@.base_url) ==> said == Some(
                "Base URL 不能为空"@,
            )
            &&& addressed && text::is_blank(provider@.model) ==> said == Some(
                "模型名称不能为空"@,
            )
            &&& plain && !is_filled(provider@.auth_text) && !is_filled(provider@.api_key) ==> said
                == Some("自定义供应商必须填写 OPENAI_API_KEY"@)
            &&& plain && !is_filled(provider@.auth_text) && is_filled(provider@.api_key) ==> said
                is None
            &&& plain && (wire::parsed_json(written@) matches Err(_)) ==> said is Some
            &&& modelled && said is None ==> (is_filled(provider@.config_text)
                ==> toml_text::parsed_toml(provider@.config_text->0) is Ok)
            &&& modelled && said is None ==> wire::parsed_json(written@) is Ok && is_filled(
                json::text_at(wire::parsed_json(written@)->Ok_0, "OPENAI_API_KEY"@),
            )
        }),
{
    text::lemma_trim_blank(provider@.name);
    text::lemma_trim_blank(provider@.base_url);
    text::lemma_trim_blank(provider@.model);
    lemma_filled(provider@.config_text);
    lemma_filled(provider@.auth_text);
    lemma_filled(provider@.api_key);
    if let Ok(auth) = wire::parsed_json(written@) {
        lemma_filled(json::text_at(auth, "OPENAI_API_KEY"@));
    }
}

/// The official provider has no `config.toml`, any other has its own as it is, where that is not
/// blank.
pub proof fn law_own_config_is_kept(provider: &CodexProvider, res: String)
    requires
        call_ensures(render_provider_config, (provider,), res),
    ensures
        provider@.is_official ==> res@.len() == 0,
        !provider@.is_official && is_filled(provider@.config_text) ==> res@
            == provider@.config_text->0,
{
    lemma_filled(provider@.config_text);
}

/// A `config.toml` that is generated has these lines and no others, where the model and the
/// address hold no line break.
pub proof fn law_generated_config_line_by_line(
    provider: &CodexProvider,
    name: &str,
    key: String,
    model: &str,
    written_model: String,
    address: &str,
    written_address: String,
    res: String,
)
    requires
        call_ensures(render_provider_config, (provider,), res),
        name@ == provider@.name,
        model@ == provider@.model,
        address@ == provider@.base_url,
        call_ensures(provider_key, (name,), key),
        call_ensures(escape_toml_string, (model,), written_model),
        call_ensures(escape_toml_string, (address,), written_address),
        !provider@.is_official,
        !is_filled(provider@.config_text),
        !provider@.model.contains('\n'),
        !provider@.base_url.contains('\n'),
    ensures
        text::split(res@, '\n') == seq![
            "model_provider = \""@ + key@ + "\""@,
            "model = \""@ + written_model@ + "\""@,
            "model_reasoning_effort = \"high\""@,
            "disable_response_storage = true"@,
        ] + (if provider@.context_window_1m {
            seq![
                "model_context_window = 1000000"@,
                "model_auto_compact_token_limit = "@ + text::decimal(
                    match provider@.auto_compact_token_limit {
                        Some(limit) => limit as nat,
                        None => 900_000,
                    },
                ),
            ]
        } else {
            seq![]
        }) + seq![
            Seq::<char>::empty(),
            "[model_providers."@ + key@ + "]"@,
            "name = \""@ + key@ + "\""@,
            "base_url = \""@ + written_address@ + "\""@,
            "env_key = \"OPENAI_API_KEY\""@,
            "wire_api = \"responses\""@,
            "requires_openai_auth = true"@,
            Seq::<char>::empty(),
        ],
{
    lemma_filled(provider@.config_text);
    law_generated_config_has_its_lines(provider@, key@);
    reveal_strlit("model");
    reveal_strlit("base_url");
    reveal_strlit(" = \"");
    reveal_strlit("model = \"");
    reveal_strlit("base_url = \"");
    assert("model"@ + " = \""@ =~= "model = \""@);
    assert("base_url"@ + " = \""@ =~= "base_url = \""@);
    let lines = config_lines(provider@, key@).push(seq![]);
    let n = if provider@.context_window_1m {
        6int
    } else {
        4int
    };
    assert(lines[1] == "model = \""@ + written_model@ + "\""@);
    assert(lines[n + 3] == "base_url = \""@ + written_address@ + "\""@);
}

/// The `auth.json` of a provider is its own as it is, where that is not blank, and else an object
/// that holds its key as it is, where there is one, and nothing more; that of the official one is
/// empty.
pub proof fn law_auth_holds_the_key(provider: &CodexProvider, res: String)
    requires
        call_ensures(render_provider_auth_text, (provider,), res),
    ensures
        provider@.is_official ==> res@ == "{}\n"@,
        !provider@.is_official && is_filled(provider@.auth_text) ==> res@
            == provider@.auth_text->0,
        !provider@.is_official && !is_filled(provider@.auth_text) ==> {
            &&& wire::parsed_json(res@) matches Ok(JsonView::Object(members))
            &&& if is_filled(provider@.api_key) {
                members == map!["OPENAI_API_KEY"@ => JsonView::Str(provider@.api_key->0)]
            } else {
                members == Map::<Seq<char>, JsonView>::empty()
            }
        },
{
    lemma_filled(provider@.auth_text);
    lemma_filled(provider@.api_key);
}

/// A secret is shown with as many asterisks as it has characters up to eight, and a longer one
/// with its last four characters after at least eight asterisks.
pub proof fn law_secret_is_shown_by_its_end(value: &str, res: String)
    requires
        call_ensures(mask_secret, (value,), res),
    ensures
        value@.len() <= 8 ==> res@.len() == value@.len() && forall|i: int|
            0 <= i < res@.len() ==> #[trigger] res@[i] == '*',
        value@.len() > 8 ==> {
            &&& res@.len() == if value@.len() < 12 { 12 } else { value@.len() }
            &&& forall|i: int| 0 <= i < res@.len() - 4 ==> #[trigger] res@[i] == '*'
            &&& res@.skip(res@.len() - 4) == value@.skip(value@.len() - 4)
        },
{
    if value@.len() > 8 {
        assert(res@.skip(res@.len() - 4) =~= value@.skip(value@.len() - 4));
    }
}

/// What is shown of a provider are its fields as they are, except that of its key only the mask is
/// shown and whether there is one; it is in use exactly where its id is the one in use.
pub proof fn law_provider_is_shown_as_it_is(
    provider: &CodexProvider,
    active_id: &Option<String>,
    secret: &str,
    mask: String,
    auth: String,
    config: String,
    res: CodexProviderView,
)
    requires
        call_ensures(to_view, (provider, active_id), res),
        secret@ == match provider@.api_key {
            Some(key) => key,
            None => seq![],
        },
        call_ensures(mask_secret, (secret,), mask),
        call_ensures(render_provider_auth_text, (provider,), auth),
        call_ensures(render_provider_config, (provider,), config),
    ensures
        res@ == (ShownProvider {
            id: provider@.id,
            name: provider@.name,
            base_url: provider@.base_url,
            model: provider@.model,
            api_key_masked: mask@,
            has_api_key: is_filled(provider@.api_key),
            auth_text: match provider@.auth_text {
                Some(s) => s,
                None => seq![],
            },
            rendered_auth_text: auth@,
            config_text: match provider@.config_text {
                Some(s) => s,
                None => seq![],
            },
            rendered_config_text: config@,
            context_window_1m: provider@.context_window_1m,
            auto_compact_token_limit: provider@.auto_compact_token_limit,
            active: text::opt_text(*active_id) == Some(provider@.id),
            is_official: provider@.is_official,
        }),
{
    lemma_filled(provider@.api_key);
}

/// Every provider is listed, in the order in which it is kept, as it is shown alone.
pub proof fn law_every_provider_is_listed(
    store: &ProviderStore,
    i: int,
    view: CodexProviderView,
    res: Vec<CodexProviderView>,
)
    requires
        call_ensures(list_provider_views, (store,), res),
        0 <= i < store.providers@.len(),
        call_ensures(to_view, (&store.providers@[i], &store.active_id), view),
    ensures
        res@.len() == store.providers@.len(),
        res@[i]@ == view@,
{
    assert(store@.providers[i] == store.providers@[i]@);
}

/// A store that is written into a configuration is read from it again, and nothing else in the
/// configuration changes.
pub proof fn law_store_is_read_back(
    config: &mut AppConfig,
    after: &AppConfig,
    store: &ProviderStore,
    res: ProviderStore,
)
    requires
        call_ensures(write_store, (config, store), ()),
        after@ == final(config)@,
        call_ensures(read_store, (after,), res),
    ensures
        res@ == store@,
        final(config)@.providers == store@.providers,
        final(config)@.active_provider_id == store@.active_id,
        final(config)@.telegram_bot_token == old(config)@.telegram_bot_token,
        final(config)@.telegram_allowed_user_id == old(config)@.telegram_allowed_user_id,
        final(config)@.codex_path == old(config)@.codex_path,
{
}

/// Deleting takes out the providers with the id and no others, and leaves the others in order; the
/// one in use stays in use, and where it was deleted the first that is left takes its place.
pub proof fn law_deleted_provider_is_gone(store: &mut ProviderStore, id: &str)
    requires
        call_ensures(delete_provider, (store, id), ()),
    ensures
        ({
            let before = old(store)@;
            let after = final(store)@;
            &&& after.providers == before.providers.filter(|kept: ProviderModel| kept.id != id@)
            &&& forall|i: int|
                0 <= i < after.providers.len() ==> (#[trigger] after.providers[i]).id != id@
            &&& forall|i: int|
                0 <= i < before.providers.len() && (#[trigger] before.providers[i]).id != id@
                    ==> after.providers.contains(before.providers[i])
            &&& before.active_id != Some(id@) ==> after.active_id == before.active_id
            &&& before.active_id == Some(id@) ==> after.active_id == if after.providers.len() > 0 {
                Some(after.providers[0].id)
            } else {
                None
            }
        }),
{
    law_deleting(old(store)@, id@);
    assert(final(store)@.providers =~= old(store)@.providers.filter(
        |kept: ProviderModel| kept.id != id@,
    ));
}

/// Putting a provider to use writes the files of the first provider with the id, shows that one as
/// in use, and changes nothing in the store but which one is in use.
pub proof fn law_activating_writes_its_files(
    store: &mut ProviderStore,
    id: &str,
    provider: &CodexProvider,
    at: int,
    files: Result<LiveConfig, String>,
    res: Result<(CodexProviderView, LiveConfig), String>,
)
    requires
        call_ensures(activate_provider, (store, id), res),
        stands_first(old(store)@.providers, at, id@),
        old(store)@.providers[at] == provider@,
        call_ensures(codex_live_config, (provider,), files),
    ensures
        final(store)@.providers == old(store)@.providers,
        match (res, files) {
            (Ok((view, live)), Ok(files)) => {
                &&& live.auth_text@ == files.auth_text@
                &&& live.config_text@ == files.config_text@
                &&& view@.id == id@
                &&& view@.name == provider@.name
                &&& view@.active
                &&& final(store)@.active_id == Some(id@)
            },
            (Err(message), Err(error)) => message@ == error@ && final(store)@.active_id == old(
                store,
            )@.active_id,
            _ => false,
        },
{
    lemma_place(old(store)@.providers, id@, at);
}

/// An id that no provider has cannot be put to use, and nothing changes.
pub proof fn law_unknown_provider_is_refused(
    store: &mut ProviderStore,
    id: &str,
    res: Result<(CodexProviderView, LiveConfig), String>,
)
    requires
        call_ensures(activate_provider, (store, id), res),
        forall|i: int|
            0 <= i < old(store)@.providers.len() ==> (#[trigger] old(store)@.providers[i]).id
                != id@,
    ensures
        res matches Err(message) && message@ == "找不到 Codex 供应商："@ + id@,
        final(store)@ == old(store)@,
{
    lemma_place(old(store)@.providers, id@, old(store)@.providers.len() as int);
}

/// The files that are written are the `config.toml` of the provider as it is and the value of its
/// `auth.json`; where either cannot be read nothing is written.
pub proof fn law_files_are_those_of_the_provider(
    provider: &CodexProvider,
    config: String,
    auth: String,
    res: Result<LiveConfig, String>,
)
    requires
        call_ensures(codex_live_config, (provider,), res),
        call_ensures(render_provider_config, (provider,), config),
        call_ensures(render_provider_auth_text, (provider,), auth),
    ensures
        res matches Ok(live) ==> {
            &&& live.config_text@ == config@
            &&& text::is_blank(config@) || toml_text::parsed_toml(config@) is Ok
            &&& wire::parsed_json(auth@) matches Ok(value)
            &&& value is Object
            &&& live.auth_text@ == wire::pretty_json(value)
        },
        (text::is_blank(config@) || toml_text::parsed_toml(config@) is Ok) && (wire::parsed_json(
            auth@,
        ) matches Ok(JsonView::Object(_))) ==> res is Ok,
{
    text::lemma_trim_blank(config@);
}

/// The directory of Codex lies in the home directory under its name.
pub proof fn law_codex_dir_lies_in_home(home: HostPath, joined: HostPath, res: Result<
    HostPath,
    String,
>)
    requires
        call_ensures(codex_dir_in, (Some(home),), res),
        call_ensures(HostPath::join, (&home, ".codex"), joined),
    ensures
        res matches Ok(dir) && dir@ == joined@,
{
}

/// The store lies in `config.json`, and the files of Codex in `.codex`, wherever the home directory
/// is.
pub proof fn law_files_go_by_their_names(
    store: Result<HostPath, String>,
    dir: Result<HostPath, String>,
)
    requires
        call_ensures(default_store_path, (), store),
        call_ensures(default_codex_dir, (), dir),
    ensures
        store matches Ok(path) ==> text::has_suffix(path@.text, "config.json"@),
        dir matches Ok(path) ==> text::has_suffix(path@.text, ".codex"@),
{
    if let Ok(path) = store {
        let tail = "config.json"@;
        assert(path@.text.skip(path@.text.len() - tail.len()) =~= tail);
    }
    if let Ok(path) = dir {
        let tail = ".codex"@;
        assert(path@.text.skip(path@.text.len() - tail.len()) =~= tail);
    }
}

/// The ASCII letters and digits of a text, in order and as small letters.
pub open spec fn small_letters(s: Seq<char>) -> Seq<char>
    decreases s.len(),
{
    if s.len() == 0 {
        seq![]
    } else {
        let front = small_letters(s.drop_last());
        let c = s.last();
        if 'A' <= c <= 'Z' {
            front.push((c as u32 + 32) as char)
        } else if ('a' <= c <= 'z') || ('0' <= c <= '9') {
            front.push(c)
        } else {
            front
        }
    }
}

proof fn lemma_small_letters_lowered(s: Seq<char>)
    ensures
        small_letters(lowered_ascii(s)) == small_letters(s),
    decreases s.len(),
{
    if s.len() > 0 {
        lemma_small_letters_lowered(s.drop_last());
        assert(lowered_ascii(s).drop_last() =~= lowered_ascii(s.drop_last()));
        assert(lowered_ascii(s).last() == lower_ascii(s.last()));
    }
}

proof fn lemma_small_letters_underscored(s: Seq<char>)
    ensures
        small_letters(underscored(s)) == small_letters(s),
    decreases s.len(),
{
    if s.len() > 0 {
        lemma_small_letters_underscored(s.drop_last());
        let front = underscored(s.drop_last());
        assert(front.push(s.last()).drop_last() =~= front);
        assert(front.push('_').drop_last() =~= front);
    }
}

proof fn lemma_small_letters_joined(a: Seq<char>, b: Seq<char>)
    ensures
        small_letters(a + b) == small_letters(a) + small_letters(b),
    decreases b.len(),
{
    if b.len() > 0 {
        lemma_small_letters_joined(a, b.drop_last());
        assert((a + b).drop_last() =~= a + b.drop_last());
        assert((a + b).last() == b.last());
        assert(small_letters(a + b) =~= small_letters(a) + small_letters(b));
    } else {
        assert(a + b =~= a);
        assert(small_letters(a) + small_letters(b) =~= small_letters(a));
    }
}

/// A text has letters or digits where one of its characters is one.
proof fn lemma_small_letters_of_none(s: Seq<char>)
    ensures
        has_alphanumeric(s) <==> small_letters(s).len() > 0,
    decreases s.len(),
{
    if s.len() > 0 {
        let front = s.drop_last();
        lemma_small_letters_of_none(front);
        if has_alphanumeric(front) {
            let i = choose|i: int| 0 <= i < front.len() && is_alphanumeric(#[trigger] front[i]);
            assert(is_alphanumeric(s[i]));
        }
        if has_alphanumeric(s) && !is_alphanumeric(s.last()) {
            let i = choose|i: int| 0 <= i < s.len() && is_alphanumeric(#[trigger] s[i]);
            assert(is_alphanumeric(front[i]));
        }
        assert(is_alphanumeric(s.last()) ==> is_alphanumeric(s[s.len() - 1]));
    }
}

/// A key is made of small letters, digits and single underscores between them.
pub proof fn law_form_of_a_key(value: &str, res: String, i: int)
    requires
        call_ensures(provider_key, (value,), res),
        0 <= i < res@.len(),
    ensures
        ('a' <= res@[i] <= 'z') || ('0' <= res@[i] <= '9') || (res@[i] == '_' && 0 < i
            < res@.len() - 1 && res@[i - 1] != '_'),
{
    assert(res@[0] != '_');
    assert(res@.last() != '_');
}

/// Every text has a key, and a text of the form of a key is its own key.
pub proof fn law_key_is_its_own_key(value: &str, res: String)
    requires
        call_ensures(provider_key, (value,), res),
    ensures
        res@.len() > 0,
        value@.len() > 0 && (forall|i: int|
            0 <= i < value@.len() ==> ('a' <= #[trigger] value@[i] <= 'z') || ('0' <= value@[i]
                <= '9') || (value@[i] == '_' && 0 < i < value@.len() - 1 && value@[i - 1] != '_'))
            ==> res@ == value@,
{
    if value@.len() > 0 && (forall|i: int|
        0 <= i < value@.len() ==> ('a' <= #[trigger] value@[i] <= 'z') || ('0' <= value@[i]
            <= '9') || (value@[i] == '_' && 0 < i < value@.len() - 1 && value@[i - 1] != '_')) {
        assert(value@[0] != '_');
        assert(value@[value@.len() - 1] != '_');
        assert(is_key(value@));
    }
}

/// The letters and digits of an ASCII text stand in its key, in order and as small letters; a text
/// without any gets the key `custom`.
pub proof fn law_key_keeps_letters_and_digits(value: &str, res: String)
    requires
        call_ensures(provider_key, (value,), res),
        forall|i: int| 0 <= i < value@.len() ==> #[trigger] value@[i] <= '\u{7f}',
    ensures
        small_letters(value@).len() > 0 ==> small_letters(res@) == small_letters(value@),
        small_letters(value@).len() == 0 ==> res@ == "custom"@,
{
    let (before, after) = text::lemma_trim_parts(value@);
    let bare = text::trim(value@);
    assert(before + bare + after =~= before + (bare + after));
    assert forall|i: int| 0 <= i < bare.len() implies #[trigger] bare[i] <= '\u{7f}' by {
        assert(bare[i] == value@[before.len() + i]);
    }
    lemma_small_letters_joined(before, bare + after);
    lemma_small_letters_joined(bare, after);
    lemma_small_letters_of_none(before);
    lemma_small_letters_of_none(after);
    assert(small_letters(value@) =~= small_letters(bare));
    let lower = lowered_ascii(bare);
    lemma_small_letters_lowered(bare);
    lemma_small_letters_underscored(lower);
    lemma_underscored_shape(lower);
    let u = underscored(lower);
    let t = text::trim_start_char(u, '_');
    text::lemma_leading_run(u, '_');
    let k = text::trim_end_char(t, '_');
    text::lemma_trailing_run(t, '_');
    text::lemma_trim_end_char_shape(t, '_');
    let front = u.take(u.len() - t.len());
    let back = t.skip(k.len() as int);
    assert(u =~= front + t);
    assert(t =~= k + back);
    lemma_small_letters_joined(front, t);
    lemma_small_letters_joined(k, back);
    lemma_small_letters_of_none(front);
    lemma_small_letters_of_none(back);
    assert(small_letters(u) =~= small_letters(k));
    lemma_small_letters_of_none(k);
    if k.len() > 0 {
        assert(k[0] == t[0]);
        assert(t[0] == u[front.len() as int]);
        assert(is_alphanumeric(k[0]));
    }
}

/// White space around a text does not matter for the key that it gets.
pub proof fn law_padded_text_gets_the_same_key(
    before: Seq<char>,
    after: Seq<char>,
    value: &str,
    padded: &str,
    key: String,
    padded_key: String,
)
    requires
        call_ensures(provider_key, (value,), key),
        call_ensures(provider_key, (padded,), padded_key),
        text::is_blank(before),
        text::is_blank(after),
        padded@ == before + value@ + after,
    ensures
        padded_key@ == key@,
{
    law_key_ignores_white_space_around(before, value@, after);
}

/// A text that is escaped and put between quotes is read back as it is, up to the quote that was
/// put after it; so texts that are escaped alike are the same.
pub proof fn law_escaped_text_is_read_back(
    value: &str,
    other: &str,
    rest: Seq<char>,
    res: String,
    other_res: String,
)
    requires
        call_ensures(escape_toml_string, (value,), res),
        call_ensures(escape_toml_string, (other,), other_res),
    ensures
        quoted_in(res@ + seq!['"'] + rest) == Some((value@, rest)),
        res@ == other_res@ ==> value@ == other@,
{
    law_quoted_text_is_read_back(value@, rest);
    law_quoted_text_is_read_back(other@, rest);
}

/// The `auth.json` that is written for a provider is read as what its own says, where every number
/// in that is an integer.
pub proof fn law_written_auth_is_read_back(
    provider: &CodexProvider,
    auth: String,
    given: &str,
    own: Result<Json, String>,
    live: LiveConfig,
    written: &str,
    back: Result<Json, String>,
)
    requires
        call_ensures(codex_live_config, (provider,), Ok::<LiveConfig, String>(live)),
        call_ensures(render_provider_auth_text, (provider,), auth),
        given@ == auth@,
        call_ensures(wire::parse_json, (given,), own),
        written@ == live.auth_text@,
        call_ensures(wire::parse_json, (written,), back),
        own matches Ok(value) ==> wire::has_integers_only(value@),
    ensures
        own matches Ok(value) && (back matches Ok(read) && read@ == value@),
{
}

/// The `config.toml` that is generated for a provider is read as naming its key, its model, its
/// address and, where that is set, its window.
pub proof fn law_written_config_says_the_fields(
    provider: &CodexProvider,
    name: &str,
    key: String,
    live: LiveConfig,
)
    requires
        call_ensures(codex_live_config, (provider,), Ok::<LiveConfig, String>(live)),
        name@ == provider@.name,
        call_ensures(provider_key, (name,), key),
        !provider@.is_official,
        !is_filled(provider@.config_text),
        forall|i: int|
            0 <= i < provider@.model.len() ==> #[trigger] provider@.model[i] >= ' '
                && provider@.model[i] != '\u{7f}',
        forall|i: int|
            0 <= i < provider@.base_url.len() ==> #[trigger] provider@.base_url[i] >= ' '
                && provider@.base_url[i] != '\u{7f}',
        provider@.auto_compact_token_limit matches Some(limit) ==> limit <= i64::MAX,
    ensures
        ({
            &&& toml_text::parsed_toml(live.config_text@) matches Ok(table)
            &&& table.contains_key("model_provider"@) && table["model_provider"@]
                == TomlView::Text(key@)
            &&& table.contains_key("model"@) && table["model"@] == TomlView::Text(provider@.model)
            &&& table.contains_key("model_providers"@)
            &&& table["model_providers"@] matches TomlView::Table(providers)
            &&& providers.dom() == set![key@]
            &&& providers[key@] matches TomlView::Table(inner)
            &&& inner.contains_key("base_url"@) && inner["base_url"@] == TomlView::Text(
                provider@.base_url,
            )
            &&& table.contains_key("model_context_window"@) == provider@.context_window_1m
            &&& table.contains_key("model_auto_compact_token_limit"@) == provider@.context_window_1m
            &&& provider@.context_window_1m ==> table["model_context_window"@]
                == TomlView::Integer(1_000_000) && table["model_auto_compact_token_limit"@]
                == TomlView::Integer(
                match provider@.auto_compact_token_limit {
                    Some(limit) => limit as int,
                    None => 900_000,
                },
            )
        }),
{
    lemma_filled(provider@.config_text);
    law_generated_table_says_the_fields(provider@, key@);
}

/// Files that are generated from the fields of a provider are always in order.
pub proof fn law_generated_files_are_in_order(
    provider: &CodexProvider,
    res: Result<LiveConfig, String>,
)
    requires
        call_ensures(codex_live_config, (provider,), res),
        !provider@.is_official,
        !is_filled(provider@.config_text),
        !is_filled(provider@.auth_text),
        forall|i: int|
            0 <= i < provider@.model.len() ==> #[trigger] provider@.model[i] >= ' '
                && provider@.model[i] != '\u{7f}',
        forall|i: int|
            0 <= i < provider@.base_url.len() ==> #[trigger] provider@.base_url[i] >= ' '
                && provider@.base_url[i] != '\u{7f}',
        provider@.auto_compact_token_limit matches Some(limit) ==> limit <= i64::MAX,
    ensures
        res is Ok,
{
    lemma_filled(provider@.config_text);
    lemma_filled(provider@.auth_text);
}

} // verus!
