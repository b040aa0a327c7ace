//! TOML: how values are written down, and what `toml` reads.
use vstd::prelude::*;

use crate::text;

verus! {

/// A TOML value.
pub enum TomlView {
    Text(Seq<char>),
    Integer(int),
    Flag(bool),
    Table(Map<Seq<char>, TomlView>),
    /// A value of another kind: a float, a date or an array.
    Other,
}

/// A table of `toml`.
#[verifier::external_type_specification]
#[verifier::external_body]
#[verifier::reject_recursive_types(K)]
#[verifier::reject_recursive_types(V)]
pub struct ExTomlMap<K, V>(toml::map::Map<K, V>);

/// A value of `toml`.
#[verifier::external_type_specification]
#[verifier::external_body]
pub struct ExTomlValue(toml::Value);

/// What a table of `toml` holds.
pub uninterp spec fn table_view(table: toml::map::Map<String, toml::Value>) -> Map<
    Seq<char>,
    TomlView,
>;

/// What `toml::from_str` makes of `s` where a table is asked for: the table, or the message of
/// its error.
pub uninterp spec fn parsed_toml(s: Seq<char>) -> Result<Map<Seq<char>, TomlView>, Seq<char>>;

/// The view of an outcome that is a table or a message.
pub open spec fn result_table(res: Result<toml::map::Map<String, toml::Value>, String>) -> Result<
    Map<Seq<char>, TomlView>,
    Seq<char>,
> {
    match res {
        Ok(table) => Ok(table_view(table)),
        Err(message) => Err(message@),
    }
}

// ---------------------------------------------------------------------------
// Plain documents
// ---------------------------------------------------------------------------

/// One character of a TOML string.
pub open spec fn toml_char(c: char) -> Seq<char> {
    if c == '\\' {
        seq!['\\', '\\']
    } else if c == '"' {
        seq!['\\', '"']
    } else {
        seq![c]
    }
}

/// The inside of a TOML string: backslashes and quotes get a backslash before them.
pub open spec fn toml_escaped(s: Seq<char>) -> Seq<char>
    decreases s.len(),
{
    if s.len() == 0 {
        seq![]
    } else {
        toml_escaped(s.drop_last()) + toml_char(s.last())
    }
}

/// The text of some lines, each with a line break after it.
pub open spec fn lines_text(lines: Seq<Seq<char>>) -> Seq<char>
    decreases lines.len(),
{
    if lines.len() == 0 {
        seq![]
    } else {
        lines_text(lines.drop_last()) + lines.last().push('\n')
    }
}

/// Whether `s` can be a key as it stands: ASCII letters, digits, underscores and hyphens.
pub open spec fn is_bare_key(s: Seq<char>) -> bool {
    &&& s.len() > 0
    &&& forall|i: int|
        0 <= i < s.len() ==> {
            ||| 'a' <= #[trigger] s[i] <= 'z'
            ||| 'A' <= s[i] <= 'Z'
            ||| '0' <= s[i] <= '9'
            ||| s[i] == '_'
            ||| s[i] == '-'
        }
}

/// Whether `s` holds no ASCII control character.
pub open spec fn has_no_control(s: Seq<char>) -> bool {
    forall|i: int| 0 <= i < s.len() ==> #[trigger] s[i] >= ' ' && s[i] != '\u{7f}'
}

/// Whether a value is a text without control characters, an integer from 0 up that fits into
/// `i64`, or a truth value.
pub open spec fn is_plain_value(value: TomlView) -> bool {
    match value {
        TomlView::Text(s) => has_no_control(s),
        TomlView::Integer(n) => 0 <= n <= i64::MAX,
        TomlView::Flag(_) => true,
        _ => false,
    }
}

/// A plain value as it is written.
pub open spec fn written(value: TomlView) -> Seq<char> {
    match value {
        TomlView::Text(s) => "\""@ + toml_escaped(s) + "\""@,
        TomlView::Integer(n) => text::decimal(n as nat),
        TomlView::Flag(flag) => if flag {
            "true"@
        } else {
            "false"@
        },
        _ => seq![],
    }
}

/// The line that gives a key its value.
pub open spec fn entry_line(entry: (Seq<char>, TomlView)) -> Seq<char> {
    entry.0 + " = "@ + written(entry.1)
}

/// The lines that give keys their values.
pub open spec fn entry_lines(entries: Seq<(Seq<char>, TomlView)>) -> Seq<Seq<char>> {
    entries.map_values(|entry: (Seq<char>, TomlView)| entry_line(entry))
}

/// The table of some entries.
pub open spec fn entries_map(entries: Seq<(Seq<char>, TomlView)>) -> Map<Seq<char>, TomlView>
    decreases entries.len(),
{
    if entries.len() == 0 {
        Map::empty()
    } else {
        entries_map(entries.drop_last()).insert(entries.last().0, entries.last().1)
    }
}

/// The table of some entries has their keys and no others, and each key with different ones has
/// its value.
pub proof fn lemma_entries_map(entries: Seq<(Seq<char>, TomlView)>)
    ensures
        forall|key: Seq<char>| #[trigger]
            entries_map(entries).contains_key(key) <==> exists|i: int|
                0 <= i < entries.len() && (#[trigger] entries[i]).0 == key,
        (forall|i: int, j: int|
            0 <= i < j < entries.len() ==> (#[trigger] entries[i]).0 != (#[trigger] entries[j]).0)
            ==> forall|i: int|
            0 <= i < entries.len() ==> entries_map(entries)[(#[trigger] entries[i]).0]
                == entries[i].1,
    decreases entries.len(),
{
    if entries.len() > 0 {
        let front = entries.drop_last();
        let last = entries.len() - 1;
        lemma_entries_map(front);
        assert forall|key: Seq<char>| #[trigger]
            entries_map(entries).contains_key(key) <==> exists|i: int|
                0 <= i < entries.len() && (#[trigger] entries[i]).0 == key by {
            if entries_map(front).contains_key(key) {
                let i = choose|i: int| 0 <= i < front.len() && (#[trigger] front[i]).0 == key;
                assert(entries[i].0 == key);
            }
            if key == entries.last().0 {
                assert(entries[last].0 == key);
            }
            if exists|i: int| 0 <= i < entries.len() && (#[trigger] entries[i]).0 == key {
                let i = choose|i: int| 0 <= i < entries.len() && (#[trigger] entries[i]).0 == key;
                if i < last {
                    assert(front[i].0 == key);
                }
            }
        }
        if forall|i: int, j: int|
            0 <= i < j < entries.len() ==> (#[trigger] entries[i]).0 != (
            #[trigger] entries[j]).0 {
            assert forall|i: int, j: int| 0 <= i < j < front.len() implies (#[trigger] front[i]).0
                != (#[trigger] front[j]).0 by {
                assert(entries[i].0 != entries[j].0);
            }
            assert forall|i: int| 0 <= i < entries.len() implies entries_map(
                entries,
            )[(#[trigger] entries[i]).0] == entries[i].1 by {
                if i < last {
                    assert(front[i] == entries[i]);
                    assert(entries[i].0 != entries[last].0);
                }
            }
        }
    }
}

/// Whether entries have different keys that can stand as they are, and plain values.
pub open spec fn are_plain_entries(entries: Seq<(Seq<char>, TomlView)>) -> bool {
    &&& forall|i: int|
        0 <= i < entries.len() ==> is_bare_key((#[trigger] entries[i]).0) && is_plain_value(
            entries[i].1,
        )
    &&& forall|i: int, j: int|
        0 <= i < j < entries.len() ==> (#[trigger] entries[i]).0 != (#[trigger] entries[j]).0
}

/// A document: entries, an empty line, the header `[group.name]`, and the entries of that table.
pub open spec fn toml_document(
    root: Seq<(Seq<char>, TomlView)>,
    group: Seq<char>,
    name: Seq<char>,
    inner: Seq<(Seq<char>, TomlView)>,
) -> Seq<char> {
    lines_text(
        entry_lines(root) + seq![seq![], "["@ + group + "."@ + name + "]"@] + entry_lines(inner),
    )
}

/// Whether the parts of a document are plain, and its table does not take the place of an entry.
pub open spec fn is_plain_document(
    root: Seq<(Seq<char>, TomlView)>,
    group: Seq<char>,
    name: Seq<char>,
    inner: Seq<(Seq<char>, TomlView)>,
) -> bool {
    &&& are_plain_entries(root)
    &&& are_plain_entries(inner)
    &&& is_bare_key(group)
    &&& is_bare_key(name)
    &&& !entries_map(root).contains_key(group)
}

/// The table that a plain document says.
pub open spec fn document_table(
    root: Seq<(Seq<char>, TomlView)>,
    group: Seq<char>,
    name: Seq<char>,
    inner: Seq<(Seq<char>, TomlView)>,
) -> Map<Seq<char>, TomlView> {
    entries_map(root).insert(
        group,
        TomlView::Table(map![name => TomlView::Table(entries_map(inner))]),
    )
}

/// `toml::from_str` for a `toml::Table`.
///
/// The contract claims that the outcome is the one that `parsed_toml` names, and that a plain
/// document is read as the table that it says.
#[verifier::external_body]
pub(crate) fn read_toml(s: &str) -> (res: Result<toml::map::Map<String, toml::Value>, String>)
    ensures
        result_table(res) == parsed_toml(s@),
        forall|
            root: Seq<(Seq<char>, TomlView)>,
            group: Seq<char>,
            name: Seq<char>,
            inner: Seq<(Seq<char>, TomlView)>,
        |
            is_plain_document(root, group, name, inner) && s@ == #[trigger] toml_document(
                root,
                group,
                name,
                inner,
            ) ==> res is Ok && table_view(res->Ok_0) == document_table(root, group, name, inner),
{
    toml::from_str::<toml::Table>(s).map_err(|err| err.to_string())
}

} // verus!
