//! Agent integrations: hooks that report an agent's state. Hooks and settings of
//! the user survive every update.

use vstd::prelude::*;

use crate::keyed;
use crate::plugins;
use crate::text;

verus! {

/// What every hook of this client begins with; earlier versions of a hook are
/// found by it.
pub const REPORT_PREFIX: &'static str = "kodade-cli agent report $KODADE_PANE ";

/// The command of a hook that reports a state.
pub open spec fn report_line(state: Seq<char>) -> Seq<char> {
    REPORT_PREFIX@ + state + " -s \"$KODADE_SESSION\""@
}

proof fn lemma_report_line_is_ours(state: Seq<char>)
    ensures
        REPORT_PREFIX@.is_prefix_of(report_line(state)),
{
    assert(report_line(state).subrange(0, REPORT_PREFIX@.len() as int) =~= REPORT_PREFIX@);
}

pub fn report_command(state: &str) -> (r: String)
    ensures
        r@ == report_line(state@),
{
    text::cat3(REPORT_PREFIX, state, " -s \"$KODADE_SESSION\"")
}

/// The word that an integration's id begins with: the agent's command, and the name of
/// its settings directory.
pub open spec fn vendor(id: Seq<char>) -> Seq<char> {
    match text::cut_at(id, '-') {
        Some((first, _)) => first,
        None => id,
    }
}

pub fn vendor_of(id: &str) -> (r: String)
    ensures
        r@ == vendor(id@),
{
    match text::split_once(id, '-') {
        Some((first, _)) => first,
        None => id.to_owned(),
    }
}

/// A word with a capital letter.
pub open spec fn capital(word: Seq<char>) -> Seq<char> {
    if word.len() > 0 && text::ascii_lower(word[0]) {
        seq![((word[0] as u32) - 32) as char] + word.skip(1)
    } else {
        word
    }
}

fn capitalized(word: &str) -> (r: String)
    ensures
        r@ == capital(word@),
{
    let chars = text::chars_of(word);
    if chars.len() > 0 && text::is_ascii_lower(chars[0]) {
        let code: u8 = chars[0] as u8;
        let mut out = String::new();
        out.push((code - 32) as char);
        out.append(text::text_of(chars.as_slice(), 1, chars.len()).as_str());
        assert(out@ =~= capital(word@));
        out
    } else {
        word.to_owned()
    }
}

/// The display name of an agent: the words of its integration's id, with capitals.
pub open spec fn title(id: Seq<char>) -> Seq<char> {
    text::joined(text::split_on(id, '-').map_values(|word: Seq<char>| capital(word)), " "@)
}

pub fn title_of(id: &str) -> (r: String)
    ensures
        r@ == title(id@),
{
    let words = text::split(id, '-');
    let ghost all = text::split_on(id@, '-').map_values(|word: Seq<char>| capital(word));
    let mut out: Vec<String> = Vec::new();
    let mut i: usize = 0;
    assert(text::texts(out@) =~= all.take(0));
    while i < words.len()
        invariant
            text::texts(words@) == text::split_on(id@, '-'),
            all == text::split_on(id@, '-').map_values(|word: Seq<char>| capital(word)),
            i <= words@.len(),
            text::texts(out@) == all.take(i as int),
        decreases words@.len() - i,
    {
        let ghost before = text::texts(out@);
        assert(text::texts(words@)[i as int] == words@[i as int]@);
        out.push(capitalized(words[i].as_str()));
        assert(text::texts(out@) =~= before.push(all[i as int]));
        assert(all.take(i + 1) =~= all.take(i as int).push(all[i as int]));
        i += 1;
    }
    assert(all.take(i as int) =~= all);
    text::join(&out, " ")
}

/// An integration: the id of its agent, the file below the home directory that it
/// changes, and what it sets there.
#[derive(Debug, Clone, PartialEq, Eq)]
pub struct Integration {
    pub id: String,
    pub target: String,
    pub mechanism: &'static str,
}

pub open spec fn integration_views(v: Seq<Integration>) -> Seq<
    (Seq<char>, Seq<char>, Seq<char>),
> {
    v.map_values(|i: Integration| (i.id@, i.target@, i.mechanism@))
}

/// Where an agent keeps its settings.
pub open spec fn settings_path(id: Seq<char>) -> Seq<char> {
    "."@ + vendor(id) + "/settings.json"@
}

/// Every integration that installs hooks or a `notify`, by id, file and mechanism. The
/// first is that of the agent whose hooks go by its prompts.
pub open spec fn integration_list(prompted: Seq<char>) -> Seq<(Seq<char>, Seq<char>, Seq<char>)> {
    seq![
        (prompted, settings_path(prompted), "hooks"@),
        ("codex"@, ".codex/config.toml"@, "notify"@),
        ("gemini-cli"@, ".gemini/settings.json"@, "hooks"@),
    ]
}

/// Every integration, in the order in which they are listed. `prompted` is the id of the
/// agent whose hooks go by its prompts.
pub fn integrations(prompted: &str) -> (r: Vec<Integration>)
    ensures
        integration_views(r@) == integration_list(prompted@),
{
    let list: Vec<Integration> = vec![
        Integration {
            id: prompted.to_owned(),
            target: text::cat3(".", vendor_of(prompted).as_str(), "/settings.json"),
            mechanism: "hooks",
        },
        Integration {
            id: "codex".to_owned(),
            target: ".codex/config.toml".to_owned(),
            mechanism: "notify",
        },
        Integration {
            id: "gemini-cli".to_owned(),
            target: ".gemini/settings.json".to_owned(),
            mechanism: "hooks",
        },
    ];
    assert(integration_views(list@) =~= integration_list(prompted@));
    list
}

/// One line of the list of integrations: `home` is the home directory, where it is
/// known, and `target` the settings file below it.
pub fn list_line(
    agent: &str,
    available: bool,
    home: &Option<String>,
    target: &str,
    mechanism: &str,
) -> (r: String)
    ensures
        r@ == text::padded_to(agent@, 12) + " "@ + text::padded_to(
            (if available {
                "available"@
            } else {
                "not found"@
            }),
            10,
        ) + " "@ + (match *home {
            Some(dir) => text::path_join(dir@, target@),
            None => target@,
        }) + " ("@ + mechanism@ + ")"@,
{
    let name = text::padded(agent, 12);
    let status = text::padded(
        if available {
            "available"
        } else {
            "not found"
        },
        10,
    );
    let shown = match home {
        Some(dir) => text::join_path(dir.as_str(), target),
        None => target.to_owned(),
    };
    let mut line = text::cat3(name.as_str(), " ", status.as_str());
    line.append(" ");
    line.append(shown.as_str());
    line.append(" (");
    line.append(mechanism);
    line.append(")");
    line
}

// ----------------------------------------------------------------------- manifest index

/// The entries of an index: its lines without the space around them, blank ones
/// left out.
pub open spec fn index_entries(lines: Seq<Seq<char>>) -> Seq<Seq<char>>
    decreases lines.len(),
{
    if lines.len() == 0 {
        Seq::empty()
    } else {
        let before = index_entries(lines.drop_last());
        let entry = text::trim(lines.last());
        if entry.len() == 0 {
            before
        } else {
            before.push(entry)
        }
    }
}

pub open spec fn stem_char(c: char) -> bool {
    text::ascii_alnum(c) || c == '-' || c == '_'
}

/// The file name of a manifest: letters, digits, `-` and `_`, then the extension.
pub open spec fn is_manifest_name(name: Seq<char>) -> bool {
    let stem = name.len() - 5;
    &&& ".toml"@.is_suffix_of(name)
    &&& stem > 0
    &&& forall|i: int| 0 <= i < stem ==> stem_char(#[trigger] name[i])
}

/// The first entry that is no manifest name, or that came before.
pub open spec fn first_bad(names: Seq<Seq<char>>, from: int) -> Option<Seq<char>>
    decreases names.len() - from,
{
    if from < 0 || from >= names.len() {
        None
    } else if !is_manifest_name(names[from]) || names.take(from).contains(names[from]) {
        Some(names[from])
    } else {
        first_bad(names, from + 1)
    }
}

/// What is wrong with an index.
pub open spec fn index_fault(index: Seq<char>) -> Option<Seq<char>> {
    let names = index_entries(text::line_texts(index));
    if names.len() == 0 || names.len() > 128 {
        Some("manifest index must contain 1–128 entries"@)
    } else {
        match first_bad(names, 0) {
            Some(name) => Some("invalid or duplicate manifest filename: "@ + name),
            None => None,
        }
    }
}

fn manifest_name(name: &str) -> (r: bool)
    ensures
        r == is_manifest_name(name@),
{
    proof {
        reveal_strlit(".toml");
    }
    if !text::ends_with(name, ".toml") {
        return false;
    }
    let chars = text::chars_of(name);
    if chars.len() <= 5 {
        return false;
    }
    let stem: usize = chars.len() - 5;
    let mut i: usize = 0;
    while i < stem
        invariant
            chars@ == name@,
            stem == chars@.len() - 5,
            i <= stem,
            forall|k: int| 0 <= k < i ==> stem_char(#[trigger] name@[k]),
        decreases stem - i,
    {
        let c = chars[i];
        if !text::is_ascii_alnum(c) && c != '-' && c != '_' {
            assert(!stem_char(name@[i as int]));
            return false;
        }
        i += 1;
    }
    true
}

fn seen_before(names: &Vec<String>, count: usize) -> (r: bool)
    requires
        count < names@.len(),
    ensures
        r == text::texts(names@).take(count as int).contains(names@[count as int]@),
{
    let ghost front = text::texts(names@).take(count as int);
    let mut i: usize = 0;
    while i < count
        invariant
            count < names@.len(),
            front == text::texts(names@).take(count as int),
            i <= count,
            forall|k: int| 0 <= k < i ==> front[k] != names@[count as int]@,
        decreases count - i,
    {
        assert(front[i as int] == names@[i as int]@);
        if text::same(names[i].as_str(), names[count].as_str()) {
            return true;
        }
        i += 1;
    }
    false
}

/// The file names that an index lists. Names that lead elsewhere, and repeated
/// ones, are refused.
pub fn manifest_names(index: &str) -> (r: Result<Vec<String>, String>)
    ensures
        text::fault(r) == index_fault(index@),
        r matches Ok(names) ==> text::texts(names@) == index_entries(text::line_texts(index@)),
{
    let lines = text::lines(index);
    let ghost all = text::line_texts(index@);
    let mut names: Vec<String> = Vec::new();
    let mut i: usize = 0;
    assert(text::texts(lines@).len() == lines@.len());
    assert(all.take(0) =~= Seq::empty());
    assert(text::texts(names@) =~= Seq::empty());
    while i < lines.len()
        invariant
            text::texts(lines@) == all,
            lines@.len() == all.len(),
            i <= lines@.len(),
            text::texts(names@) == index_entries(all.take(i as int)),
        decreases lines@.len() - i,
    {
        assert(all.take(i + 1).drop_last() =~= all.take(i as int));
        assert(all.take(i + 1).last() == lines@[i as int]@);
        let entry = text::trimmed(lines[i].as_str());
        if !entry.is_empty() {
            let ghost before = text::texts(names@);
            names.push(entry.to_owned());
            assert(text::texts(names@) =~= before.push(entry@));
        }
        i += 1;
    }
    assert(all.take(i as int) =~= all);
    let ghost listed = text::texts(names@);
    assert(listed.len() == names@.len());
    if names.len() == 0 || names.len() > 128 {
        return Err("manifest index must contain 1–128 entries".to_owned());
    }
    let mut k: usize = 0;
    while k < names.len()
        invariant
            listed == text::texts(names@),
            listed.len() == names@.len(),
            listed == index_entries(text::line_texts(index@)),
            0 < listed.len() <= 128,
            k <= names@.len(),
            first_bad(listed, 0) == first_bad(listed, k as int),
        decreases names@.len() - k,
    {
        assert(listed[k as int] == names@[k as int]@);
        if !manifest_name(names[k].as_str()) || seen_before(&names, k) {
            return Err(
                text::cat("invalid or duplicate manifest filename: ", names[k].as_str()),
            );
        }
        k += 1;
    }
    Ok(names)
}

/// A listed name never leads out of its directory.
pub proof fn law_listed_names_stay_inside(name: Seq<char>)
    requires
        is_manifest_name(name),
    ensures
        !name.contains('/'),
        name != ".."@,
{
    reveal_strlit(".toml");
    reveal_strlit("..");
    assert forall|i: int| 0 <= i < name.len() implies name[i] != '/' by {
        if i < name.len() - 5 {
            assert(stem_char(name[i]));
        } else {
            assert(name[i] == ".toml"@[i - (name.len() - 5)]);
        }
    }
}

/// A downloaded manifest must have the name of its file. `declared` is the name that
/// the daemon's own check read from it, or why that check refused it.
pub fn validate_download(name: &str, declared: &Result<String, String>) -> (r: Result<(), String>)
    ensures
        match *declared {
            Err(fault) => text::fault(r) == Some(fault@),
            Ok(parsed) => text::fault(r) == (if name@ == parsed@ + ".toml"@ {
                None
            } else {
                Some("manifest name does not match "@ + name@)
            }),
        },
{
    match declared {
        Err(fault) => Err(fault.clone()),
        Ok(parsed) => {
            let file = text::cat(parsed.as_str(), ".toml");
            if text::same(file.as_str(), name) {
                Ok(())
            } else {
                Err(text::cat("manifest name does not match ", name))
            }
        },
    }
}

// -------------------------------------------------------------------------------- JSON

/// A JSON value one level deep: what is inside it is JSON text again.
#[derive(Debug, PartialEq, Eq)]
pub enum Json {
    Object(Vec<(String, String)>),
    List(Vec<String>),
    Text(String),
    /// A number, a truth value or null.
    Other,
}

/// A JSON value as plain values.
pub enum JsonView {
    Object(Seq<(Seq<char>, Seq<char>)>),
    List(Seq<Seq<char>>),
    Text(Seq<char>),
    Other,
}

impl View for Json {
    type V = JsonView;

    open spec fn view(&self) -> JsonView {
        match self {
            Json::Object(members) => JsonView::Object(plugins::pair_texts(members@)),
            Json::List(items) => JsonView::List(text::texts(items@)),
            Json::Text(s) => JsonView::Text(s@),
            Json::Other => JsonView::Other,
        }
    }
}

pub open spec fn json_view(v: Option<Json>) -> Option<JsonView> {
    match v {
        Some(value) => Some(value@),
        None => None,
    }
}

/// The value that the `serde_json` crate reads in a text, if it reads one: the members
/// of an object and the items of a list are the texts that it writes for them, the
/// members in the order of its map.
pub uninterp spec fn json_value(source: Seq<char>) -> Option<JsonView>;

/// The text that `serde_json` writes for an object with members that are JSON texts.
pub uninterp spec fn json_object(members: Seq<(Seq<char>, Seq<char>)>) -> Seq<char>;

/// The text that `serde_json` writes for a list of items that are JSON texts.
pub uninterp spec fn json_list(items: Seq<Seq<char>>) -> Seq<char>;

/// The text that `serde_json` writes for a text.
pub uninterp spec fn json_text(s: Seq<char>) -> Seq<char>;

/// The text that `serde_json` writes, over several lines, for the value in a text.
pub uninterp spec fn json_pretty(source: Seq<char>) -> Seq<char>;

/// The members of the object in a text, where it is one.
pub open spec fn members_of(source: Seq<char>) -> Option<Seq<(Seq<char>, Seq<char>)>> {
    match json_value(source) {
        Some(JsonView::Object(members)) => Some(members),
        _ => None,
    }
}

/// The items of the list in a text, where it is one.
pub open spec fn items_of(source: Seq<char>) -> Option<Seq<Seq<char>>> {
    match json_value(source) {
        Some(JsonView::List(items)) => Some(items),
        _ => None,
    }
}

/// The text stands as `serde_json` writes the value in it: it does not change when it is
/// put into a list and read from there.
pub open spec fn written(source: Seq<char>) -> bool {
    items_of(json_list(seq![source])) == Some(seq![source])
}

pub open spec fn all_written(items: Seq<Seq<char>>) -> bool {
    forall|i: int| 0 <= i < items.len() ==> written(#[trigger] items[i])
}

pub open spec fn values_written(members: Seq<(Seq<char>, Seq<char>)>) -> bool {
    forall|i: int| 0 <= i < members.len() ==> written((#[trigger] members[i]).1)
}

/// A text that reads as JSON, with at most `levels` lists and objects inside one another.
/// The keys of its objects rise, and what is inside stands as `serde_json` writes it.
pub open spec fn proper(source: Seq<char>, levels: nat) -> bool
    decreases levels,
{
    match json_value(source) {
        None => false,
        Some(JsonView::Object(members)) => levels > 0 && keyed::rising(members) && values_written(
            members,
        ) && forall|i: int|
            0 <= i < members.len() ==> proper((#[trigger] members[i]).1, (levels - 1) as nat),
        Some(JsonView::List(items)) => levels > 0 && all_written(items) && forall|i: int|
            0 <= i < items.len() ==> proper(#[trigger] items[i], (levels - 1) as nat),
        Some(_) => true,
    }
}

/// A text that is proper within some levels is so within more.
proof fn lemma_proper_within(source: Seq<char>, levels: nat, more: nat)
    requires
        proper(source, levels),
        levels <= more,
    ensures
        proper(source, more),
    decreases levels,
{
    match json_value(source) {
        Some(JsonView::Object(members)) => {
            assert forall|i: int| 0 <= i < members.len() implies proper(
                (#[trigger] members[i]).1,
                (more - 1) as nat,
            ) by {
                lemma_proper_within(members[i].1, (levels - 1) as nat, (more - 1) as nat);
            }
        },
        Some(JsonView::List(items)) => {
            assert forall|i: int| 0 <= i < items.len() implies proper(
                #[trigger] items[i],
                (more - 1) as nat,
            ) by {
                lemma_proper_within(items[i], (levels - 1) as nat, (more - 1) as nat);
            }
        },
        _ => {},
    }
}

/// Calls `serde_json::from_str` for a `serde_json::Value` and takes it apart, each inner
/// value written by its `Display`. Nothing where the text is not JSON; named by
/// `json_value`. The reader stops at a nesting of 128, its map is ordered by key, and what
/// its `Display` writes it reads and writes again as it is.
#[verifier::external_body]
fn read_json(source: &str) -> (r: Option<Json>)
    ensures
        json_view(r) == json_value(source@),
        r is Some ==> proper(source@, 127),
{
    Some(match serde_json::from_str::<serde_json::Value>(source).ok()? {
        serde_json::Value::Object(members) => Json::Object(
            members.into_iter().map(|(key, value)| (key, value.to_string())).collect(),
        ),
        serde_json::Value::Array(items) => Json::List(
            items.into_iter().map(|item| item.to_string()).collect(),
        ),
        serde_json::Value::String(text) => Json::Text(text),
        _ => Json::Other,
    })
}

/// Reads each member with `serde_json::from_str` into a `serde_json::Map` and writes the
/// object by the `Display` of `serde_json::Value`. A member that is not JSON counts as
/// null; what is written is named by `json_object`. Members in the order of their keys,
/// each as the `Display` writes it, are read back as they are, and within the nesting that
/// the reader takes the object is itself as the `Display` writes it.
#[verifier::external_body]
fn write_object(members: &Vec<(String, String)>) -> (r: String)
    ensures
        r@ == json_object(plugins::pair_texts(members@)),
        keyed::rising(plugins::pair_texts(members@)) && values_written(
            plugins::pair_texts(members@),
        ) ==> json_value(r@) == Some(JsonView::Object(plugins::pair_texts(members@))),
        proper(r@, 126) ==> written(r@),
{
    let object: serde_json::Map<String, serde_json::Value> = members.iter().map(
        |(key, value)| (key.clone(), serde_json::from_str(value).unwrap_or_default()),
    ).collect();
    serde_json::Value::Object(object).to_string()
}

/// Reads each item with `serde_json::from_str` and writes the list by the `Display` of
/// `serde_json::Value`. An item that is not JSON counts as null; what is written is named
/// by `json_list`. Items as the `Display` writes them are read back as they are, and within
/// the nesting that the reader takes the list is itself as the `Display` writes it.
#[verifier::external_body]
fn write_items(items: &Vec<String>) -> (r: String)
    ensures
        r@ == json_list(text::texts(items@)),
        all_written(text::texts(items@)) ==> json_value(r@) == Some(
            JsonView::List(text::texts(items@)),
        ),
        proper(r@, 126) ==> written(r@),
{
    let list: Vec<serde_json::Value> = items.iter().map(
        |item| serde_json::from_str(item).unwrap_or_default(),
    ).collect();
    serde_json::Value::Array(list).to_string()
}

/// Writes a text by the `Display` of `serde_json::Value`. What is written is named by
/// `json_text`; reading it gives the text back, and writing that again the same.
#[verifier::external_body]
fn write_text(s: &str) -> (r: String)
    ensures
        r@ == json_text(s@),
        json_value(r@) == Some(JsonView::Text(s@)),
        written(r@),
{
    serde_json::Value::String(s.to_owned()).to_string()
}

/// Reads a text with `serde_json::from_str` and writes it with
/// `serde_json::to_string_pretty`. A text that is not JSON counts as null; what is written
/// is named by `json_pretty`. What is written, with a line end behind it, has the value
/// that was read.
#[verifier::external_body]
fn pretty(source: &str) -> (r: String)
    ensures
        r@ == json_pretty(source@),
        json_value(source@) is Some ==> json_value(r@ + "\n"@) == json_value(source@),
{
    let value: serde_json::Value = serde_json::from_str(source).unwrap_or_default();
    serde_json::to_string_pretty(&value).unwrap_or_default()
}

fn find_member(members: &Vec<(String, String)>, key: &str) -> (r: Option<usize>)
    ensures
        match keyed::slot(plugins::pair_texts(members@), key@) {
            Some(i) => 0 <= i < members@.len() && (r matches Some(at) && at == i),
            None => r is None,
        },
{
    let ghost all = plugins::pair_texts(members@);
    let mut i: usize = 0;
    assert(all.skip(0) =~= all);
    while i < members.len()
        invariant
            all == plugins::pair_texts(members@),
            i <= members@.len(),
            keyed::slot(all, key@) == (match keyed::slot(all.skip(i as int), key@) {
                Some(k) => Some(k + i),
                None => None::<int>,
            }),
        decreases members@.len() - i,
    {
        assert(all.skip(i as int)[0] == all[i as int]);
        assert(all.skip(i as int).skip(1) =~= all.skip(i + 1));
        if text::same(members[i].0.as_str(), key) {
            return Some(i);
        }
        i += 1;
    }
    None
}

fn set_member(members: &mut Vec<(String, String)>, key: &str, value: String)
    ensures
        plugins::pair_texts(final(members)@) == keyed::put(
            plugins::pair_texts(old(members)@),
            key@,
            value@,
        ),
{
    let ghost all = plugins::pair_texts(members@);
    let ghost set = value@;
    match find_member(members, key) {
        Some(i) => {
            members.set(i, (key.to_owned(), value));
            assert(plugins::pair_texts(members@) =~= all.update(i as int, (key@, set)));
        },
        None => {
            let mut i: usize = 0;
            assert(all.skip(0) =~= all);
            while i < members.len() && !text::comes_before(key, members[i].0.as_str())
                invariant
                    all == plugins::pair_texts(members@),
                    i <= members@.len(),
                    keyed::place(all, key@) == i + keyed::place(all.skip(i as int), key@),
                decreases members@.len() - i,
            {
                assert(all.skip(i as int)[0] == all[i as int]);
                assert(all.skip(i as int).skip(1) =~= all.skip(i + 1));
                i += 1;
            }
            if i < members.len() {
                assert(all.skip(i as int)[0] == all[i as int]);
            }
            members.insert(i, (key.to_owned(), value));
            assert(plugins::pair_texts(members@) =~= all.insert(i as int, (key@, set)));
        },
    }
}

// ------------------------------------------------------------------------------- hooks

/// A hook: its command, where it has one, and the whole of it as JSON.
#[derive(Debug, PartialEq, Eq)]
pub struct Hook {
    pub command: Option<String>,
    pub json: String,
}

/// A hook as plain values.
pub struct HookView {
    pub command: Option<Seq<char>>,
    pub json: Seq<char>,
}

impl View for Hook {
    type V = HookView;

    open spec fn view(&self) -> HookView {
        HookView { command: text::option_text(self.command), json: self.json@ }
    }
}

impl Clone for Hook {
    fn clone(&self) -> (r: Self)
        ensures
            r@ == self@,
    {
        Hook {
            command: match &self.command {
                Some(command) => Some(command.clone()),
                None => None,
            },
            json: self.json.clone(),
        }
    }
}

/// An entry of an event: its hooks, where it has a list of them, and the JSON in which
/// they stand.
#[derive(Debug, PartialEq, Eq)]
pub struct Entry {
    pub json: String,
    pub hooks: Option<Vec<Hook>>,
}

pub struct EntryView {
    pub json: Seq<char>,
    pub hooks: Option<Seq<HookView>>,
}

pub open spec fn hook_views(v: Seq<Hook>) -> Seq<HookView> {
    v.map_values(|h: Hook| h@)
}

impl View for Entry {
    type V = EntryView;

    open spec fn view(&self) -> EntryView {
        EntryView {
            json: self.json@,
            hooks: match self.hooks {
                Some(hooks) => Some(hook_views(hooks@)),
                None => None,
            },
        }
    }
}

/// What stands under an event: entries, or something else as JSON.
#[derive(Debug, PartialEq, Eq)]
pub enum EventValue {
    Entries(Vec<Entry>),
    Other(String),
}

pub enum EventView {
    Entries(Seq<EntryView>),
    Other(Seq<char>),
}

pub open spec fn entry_views(v: Seq<Entry>) -> Seq<EntryView> {
    v.map_values(|e: Entry| e@)
}

impl View for EventValue {
    type V = EventView;

    open spec fn view(&self) -> EventView {
        match self {
            EventValue::Entries(entries) => EventView::Entries(entry_views(entries@)),
            EventValue::Other(json) => EventView::Other(json@),
        }
    }
}

pub open spec fn table_view(v: Seq<(String, EventValue)>) -> Seq<(Seq<char>, EventView)> {
    v.map_values(|p: (String, EventValue)| (p.0@, p.1@))
}

/// A hook of this client.
pub open spec fn ours(hook: HookView) -> bool {
    match hook.command {
        Some(command) => REPORT_PREFIX@.is_prefix_of(command),
        None => false,
    }
}

/// The hooks of others.
pub open spec fn others(hooks: Seq<HookView>) -> Seq<HookView>
    decreases hooks.len(),
{
    if hooks.len() == 0 {
        hooks
    } else if ours(hooks.last()) {
        others(hooks.drop_last())
    } else {
        others(hooks.drop_last()).push(hooks.last())
    }
}

/// An entry without the hooks of this client; nothing where it held only those.
pub open spec fn stripped_entry(entry: EntryView) -> Option<EntryView> {
    match entry.hooks {
        None => Some(entry),
        Some(hooks) => {
            let left = others(hooks);
            if left.len() == hooks.len() || left.len() > 0 {
                Some(EntryView { hooks: Some(left), ..entry })
            } else {
                None
            }
        },
    }
}

pub open spec fn stripped_entries(entries: Seq<EntryView>) -> Seq<EntryView>
    decreases entries.len(),
{
    if entries.len() == 0 {
        entries
    } else {
        let before = stripped_entries(entries.drop_last());
        match stripped_entry(entries.last()) {
            Some(entry) => before.push(entry),
            None => before,
        }
    }
}

/// What stands under an event, without the hooks of this client; nothing where no
/// entry is left.
pub open spec fn stripped_event(value: EventView) -> Option<EventView> {
    match value {
        EventView::Other(_) => Some(value),
        EventView::Entries(entries) => {
            let left = stripped_entries(entries);
            if left.len() == 0 {
                None
            } else {
                Some(EventView::Entries(left))
            }
        },
    }
}

/// The events without the hooks of this client.
pub open spec fn stripped(table: Seq<(Seq<char>, EventView)>) -> Seq<(Seq<char>, EventView)>
    decreases table.len(),
{
    if table.len() == 0 {
        table
    } else {
        let before = stripped(table.drop_last());
        match stripped_event(table.last().1) {
            Some(value) => before.push((table.last().0, value)),
            None => before,
        }
    }
}

/// The table with more entries under an event; nothing where something else stands
/// there.
pub open spec fn extended(
    table: Seq<(Seq<char>, EventView)>,
    event: Seq<char>,
    entries: Seq<EntryView>,
) -> Option<Seq<(Seq<char>, EventView)>> {
    match keyed::value_at(table, event) {
        None => Some(keyed::put(table, event, EventView::Entries(entries))),
        Some(EventView::Other(_)) => None,
        Some(EventView::Entries(present)) => Some(
            keyed::put(table, event, EventView::Entries(present + entries)),
        ),
    }
}

/// The table with the first `count` new events.
pub open spec fn with_new(
    table: Seq<(Seq<char>, EventView)>,
    new: Seq<(Seq<char>, Seq<EntryView>)>,
    count: int,
) -> Option<Seq<(Seq<char>, EventView)>>
    decreases count,
{
    if count <= 0 {
        Some(table)
    } else {
        match with_new(table, new, count - 1) {
            Some(before) => extended(before, new[count - 1].0, new[count - 1].1),
            None => None,
        }
    }
}

/// Settings after a merge: earlier hooks of this client give way to the new ones.
pub open spec fn merged(
    table: Seq<(Seq<char>, EventView)>,
    new: Seq<(Seq<char>, Seq<EntryView>)>,
) -> Option<Seq<(Seq<char>, EventView)>> {
    with_new(stripped(table), new, new.len() as int)
}

/// Every hook of an entry is one of this client, and there is one.
pub open spec fn only_ours(entry: EntryView) -> bool {
    match entry.hooks {
        Some(hooks) => hooks.len() > 0 && forall|i: int|
            0 <= i < hooks.len() ==> ours(#[trigger] hooks[i]),
        None => false,
    }
}

/// New events hold entries of this client alone.
pub open spec fn all_ours(new: Seq<(Seq<char>, Seq<EntryView>)>) -> bool {
    forall|i: int, j: int|
        0 <= i < new.len() && 0 <= j < new[i].1.len() ==> only_ours(#[trigger] new[i].1[j])
}

proof fn lemma_others_none(hooks: Seq<HookView>)
    requires
        forall|i: int| 0 <= i < hooks.len() ==> ours(#[trigger] hooks[i]),
    ensures
        others(hooks).len() == 0,
    decreases hooks.len(),
{
    if hooks.len() > 0 {
        assert(ours(hooks[hooks.len() - 1]));
        assert forall|i: int| 0 <= i < hooks.drop_last().len() implies ours(
            #[trigger] hooks.drop_last()[i],
        ) by {
            assert(ours(hooks[i]));
        }
        lemma_others_none(hooks.drop_last());
    }
}

proof fn lemma_others_again(hooks: Seq<HookView>)
    ensures
        others(others(hooks)) == others(hooks),
        others(hooks).len() <= hooks.len(),
    decreases hooks.len(),
{
    if hooks.len() > 0 {
        lemma_others_again(hooks.drop_last());
        if !ours(hooks.last()) {
            let front = others(hooks.drop_last());
            assert(front.push(hooks.last()).drop_last() =~= front);
        }
    }
}

proof fn lemma_entry_again(entry: EntryView)
    ensures
        stripped_entry(entry) matches Some(once) ==> stripped_entry(once) == Some(once),
{
    if let Some(hooks) = entry.hooks {
        lemma_others_again(hooks);
    }
}

proof fn lemma_entries_again(entries: Seq<EntryView>)
    ensures
        stripped_entries(stripped_entries(entries)) == stripped_entries(entries),
    decreases entries.len(),
{
    if entries.len() > 0 {
        lemma_entries_again(entries.drop_last());
        lemma_entry_again(entries.last());
        let before = stripped_entries(entries.drop_last());
        if let Some(entry) = stripped_entry(entries.last()) {
            assert(before.push(entry).drop_last() =~= before);
        }
    }
}

proof fn lemma_stripped_again(table: Seq<(Seq<char>, EventView)>)
    ensures
        stripped(stripped(table)) == stripped(table),
    decreases table.len(),
{
    if table.len() > 0 {
        lemma_stripped_again(table.drop_last());
        let before = stripped(table.drop_last());
        if let Some(value) = stripped_event(table.last().1) {
            let all = before.push((table.last().0, value));
            assert(all.drop_last() =~= before);
            if let EventView::Entries(entries) = table.last().1 {
                lemma_entries_again(entries);
            }
            assert(stripped_event(value) == Some(value));
        }
    }
}

proof fn lemma_new_entries_go(entries: Seq<EntryView>, new: Seq<EntryView>)
    requires
        forall|j: int| 0 <= j < new.len() ==> only_ours(#[trigger] new[j]),
    ensures
        stripped_entries(entries + new) == stripped_entries(entries),
    decreases new.len(),
{
    if new.len() == 0 {
        assert(entries + new =~= entries);
    } else {
        let front = new.drop_last();
        assert forall|j: int| 0 <= j < front.len() implies only_ours(#[trigger] front[j]) by {
            assert(front[j] == new[j]);
        }
        lemma_new_entries_go(entries, front);
        assert((entries + new).drop_last() =~= entries + front);
        assert(only_ours(new[new.len() - 1]));
        if let Some(hooks) = new.last().hooks {
            lemma_others_none(hooks);
        }
        assert((entries + new).last() == new.last());
    }
}

proof fn lemma_update_strips_alike(
    table: Seq<(Seq<char>, EventView)>,
    i: int,
    value: EventView,
)
    requires
        0 <= i < table.len(),
        stripped_event(value) == stripped_event(table[i].1),
    ensures
        stripped(table.update(i, (table[i].0, value))) == stripped(table),
    decreases table.len(),
{
    let after = table.update(i, (table[i].0, value));
    if i == table.len() - 1 {
        assert(after.drop_last() =~= table.drop_last());
    } else {
        lemma_update_strips_alike(table.drop_last(), i, value);
        assert(after.drop_last() =~= table.drop_last().update(i, (table[i].0, value)));
        assert(after.last() == table.last());
    }
}

proof fn lemma_insertion_strips_away(
    table: Seq<(Seq<char>, EventView)>,
    at: int,
    entry: (Seq<char>, EventView),
)
    requires
        0 <= at <= table.len(),
        stripped_event(entry.1) is None,
    ensures
        stripped(table.insert(at, entry)) == stripped(table),
    decreases table.len(),
{
    let after = table.insert(at, entry);
    if at == table.len() {
        assert(after.drop_last() =~= table);
    } else {
        lemma_insertion_strips_away(table.drop_last(), at, entry);
        assert(after.drop_last() =~= table.drop_last().insert(at, entry));
        assert(after.last() == table.last());
    }
}

proof fn lemma_extension_strips_away(
    table: Seq<(Seq<char>, EventView)>,
    event: Seq<char>,
    entries: Seq<EntryView>,
)
    requires
        forall|j: int| 0 <= j < entries.len() ==> only_ours(#[trigger] entries[j]),
    ensures
        extended(table, event, entries) matches Some(after) ==> stripped(after) == stripped(table),
{
    keyed::lemma_slot(table, event);
    keyed::lemma_place(table, event);
    match keyed::slot(table, event) {
        None => {
            lemma_new_entries_go(Seq::empty(), entries);
            assert(Seq::<EntryView>::empty() + entries =~= entries);
            lemma_insertion_strips_away(
                table,
                keyed::place(table, event),
                (event, EventView::Entries(entries)),
            );
        },
        Some(i) => {
            if let EventView::Entries(present) = table[i].1 {
                lemma_new_entries_go(present, entries);
                lemma_update_strips_alike(table, i, EventView::Entries(present + entries));
            }
        },
    }
}

proof fn lemma_new_strips_away(
    table: Seq<(Seq<char>, EventView)>,
    new: Seq<(Seq<char>, Seq<EntryView>)>,
    count: int,
)
    requires
        all_ours(new),
        count <= new.len(),
    ensures
        with_new(table, new, count) matches Some(after) ==> stripped(after) == stripped(table),
    decreases count,
{
    if count > 0 {
        lemma_new_strips_away(table, new, count - 1);
        if let Some(before) = with_new(table, new, count - 1) {
            let entries = new[count - 1].1;
            assert forall|j: int| 0 <= j < entries.len() implies only_ours(
                #[trigger] entries[j],
            ) by {
                assert(only_ours(new[count - 1].1[j]));
            }
            lemma_extension_strips_away(before, new[count - 1].0, entries);
        }
    }
}

/// Merging the same hooks again changes nothing: no hook is ever there twice.
pub proof fn law_merging_again_changes_nothing(
    table: Seq<(Seq<char>, EventView)>,
    new: Seq<(Seq<char>, Seq<EntryView>)>,
)
    requires
        all_ours(new),
    ensures
        merged(table, new) matches Some(once) ==> merged(once, new) == Some(once),
{
    lemma_new_strips_away(stripped(table), new, new.len() as int);
    lemma_stripped_again(table);
}

/// A hook of someone else is never taken out.
pub proof fn law_hooks_of_others_survive(hooks: Seq<HookView>, k: int)
    requires
        0 <= k < hooks.len(),
        !ours(hooks[k]),
    ensures
        others(hooks).contains(hooks[k]),
    decreases hooks.len(),
{
    let front = others(hooks.drop_last());
    if k == hooks.len() - 1 {
        assert(front.push(hooks.last())[front.len() as int] == hooks[k]);
    } else {
        law_hooks_of_others_survive(hooks.drop_last(), k);
        let j = choose|j: int| 0 <= j < front.len() && front[j] == hooks[k];
        if !ours(hooks.last()) {
            assert(front.push(hooks.last())[j] == hooks[k]);
        }
    }
}

/// An entry that holds a hook of someone else stays, with the rest of it unchanged.
pub proof fn law_shared_entries_survive(entry: EntryView, k: int)
    requires
        entry.hooks matches Some(hooks) && 0 <= k < hooks.len() && !ours(hooks[k]),
    ensures
        stripped_entry(entry) matches Some(after) && after.json == entry.json && (
        after.hooks matches Some(left) && left.contains(entry.hooks->0[k])),
{
    law_hooks_of_others_survive(entry.hooks->0, k);
}

/// Whether a value is still there: unchanged, or with entries behind its own.
pub open spec fn grown(before: EventView, after: EventView) -> bool {
    match (before, after) {
        (EventView::Other(a), EventView::Other(b)) => a == b,
        (EventView::Entries(a), EventView::Entries(b)) => a.is_prefix_of(b),
        _ => false,
    }
}

/// Whether an event still has a value.
pub open spec fn carries(
    table: Seq<(Seq<char>, EventView)>,
    event: Seq<char>,
    value: EventView,
) -> bool {
    exists|k: int|
        0 <= k < table.len() && (#[trigger] table[k]).0 == event && grown(value, table[k].1)
}

proof fn lemma_stripped_carries(table: Seq<(Seq<char>, EventView)>, i: int)
    requires
        0 <= i < table.len(),
        stripped_event(table[i].1) is Some,
    ensures
        carries(stripped(table), table[i].0, stripped_event(table[i].1)->0),
    decreases table.len(),
{
    let front = stripped(table.drop_last());
    let all = stripped(table);
    let value = stripped_event(table[i].1)->0;
    if i == table.len() - 1 {
        assert(all[front.len() as int] == (table[i].0, value));
        assert(grown(value, all[front.len() as int].1));
    } else {
        lemma_stripped_carries(table.drop_last(), i);
        let k = choose|k: int|
            0 <= k < front.len() && (#[trigger] front[k]).0 == table[i].0 && grown(
                value,
                front[k].1,
            );
        assert(all[k] == front[k]);
    }
}

proof fn lemma_new_carries(
    table: Seq<(Seq<char>, EventView)>,
    new: Seq<(Seq<char>, Seq<EntryView>)>,
    count: int,
    event: Seq<char>,
    value: EventView,
)
    requires
        carries(table, event, value),
        count <= new.len(),
    ensures
        with_new(table, new, count) matches Some(after) ==> carries(after, event, value),
    decreases count,
{
    if count > 0 {
        lemma_new_carries(table, new, count - 1, event, value);
        if let Some(before) = with_new(table, new, count - 1) {
            let (name, entries) = new[count - 1];
            keyed::lemma_slot(before, name);
            keyed::lemma_place(before, name);
            if let Some(after) = extended(before, name, entries) {
                let k = choose|k: int|
                    0 <= k < before.len() && (#[trigger] before[k]).0 == event && grown(
                        value,
                        before[k].1,
                    );
                let p = keyed::place(before, name);
                let at = if keyed::slot(before, name) is None && k >= p {
                    k + 1
                } else {
                    k
                };
                assert(after[at].0 == event && grown(value, after[at].1)) by {
                    if keyed::slot(before, name) == Some(k) {
                        let present = before[k].1->Entries_0;
                        assert(present.is_prefix_of(present + entries));
                        if let EventView::Entries(own) = value {
                            assert(own.is_prefix_of(present + entries)) by {
                                assert((present + entries).subrange(0, own.len() as int)
                                    =~= present.subrange(0, own.len() as int));
                            }
                        }
                    } else {
                        assert(after[at] == before[k]);
                    }
                }
            }
        }
    }
}

/// What a user has under an event survives a merge: entries stay, in their order and
/// without the hooks of this client, in front of the new ones, and a value that is no
/// list stays as it is.
pub proof fn law_user_events_survive(
    table: Seq<(Seq<char>, EventView)>,
    new: Seq<(Seq<char>, Seq<EntryView>)>,
    i: int,
)
    requires
        0 <= i < table.len(),
        stripped_event(table[i].1) is Some,
    ensures
        merged(table, new) matches Some(after) ==> carries(
            after,
            table[i].0,
            stripped_event(table[i].1)->0,
        ),
{
    lemma_stripped_carries(table, i);
    lemma_new_carries(
        stripped(table),
        new,
        new.len() as int,
        table[i].0,
        stripped_event(table[i].1)->0,
    );
}

fn is_ours(hook: &Hook) -> (r: bool)
    ensures
        r == ours(hook@),
{
    match &hook.command {
        Some(command) => text::starts_with(command.as_str(), REPORT_PREFIX),
        None => false,
    }
}

fn keep_others(hooks: &Vec<Hook>) -> (r: Vec<Hook>)
    ensures
        hook_views(r@) == others(hook_views(hooks@)),
{
    let ghost all = hook_views(hooks@);
    let mut out: Vec<Hook> = Vec::new();
    let mut i: usize = 0;
    assert(all.take(0) =~= Seq::empty());
    assert(hook_views(out@) =~= Seq::empty());
    while i < hooks.len()
        invariant
            all == hook_views(hooks@),
            i <= hooks@.len(),
            hook_views(out@) == others(all.take(i as int)),
        decreases hooks@.len() - i,
    {
        assert(all.take(i + 1).drop_last() =~= all.take(i as int));
        assert(all.take(i + 1).last() == hooks@[i as int]@);
        if !is_ours(&hooks[i]) {
            let ghost before = hook_views(out@);
            out.push(hooks[i].clone());
            assert(hook_views(out@) =~= before.push(all[i as int]));
        }
        i += 1;
    }
    assert(all.take(i as int) =~= all);
    out
}

fn strip_entry(entry: Entry) -> (r: Option<Entry>)
    ensures
        match stripped_entry(entry@) {
            Some(view) => r matches Some(left) && left@ == view,
            None => r is None,
        },
{
    match entry.hooks {
        None => Some(Entry { json: entry.json, hooks: None }),
        Some(hooks) => {
            let left = keep_others(&hooks);
            assert(hook_views(left@).len() == left@.len());
            assert(hook_views(hooks@).len() == hooks@.len());
            if left.len() == hooks.len() || left.len() > 0 {
                Some(Entry { json: entry.json, hooks: Some(left) })
            } else {
                None
            }
        },
    }
}

fn strip_entries(entries: Vec<Entry>) -> (r: Vec<Entry>)
    ensures
        entry_views(r@) == stripped_entries(entry_views(entries@)),
{
    let ghost all = entry_views(entries@);
    let mut rest = entries;
    let mut out: Vec<Entry> = Vec::new();
    let ghost mut done: int = 0;
    assert(all.take(0) =~= Seq::empty());
    assert(entry_views(out@) =~= Seq::empty());
    assert(all.skip(0) =~= all);
    while rest.len() > 0
        invariant
            0 <= done <= all.len(),
            entry_views(rest@) == all.skip(done),
            entry_views(out@) == stripped_entries(all.take(done)),
        decreases rest@.len(),
    {
        let ghost left = rest@;
        let entry = rest.remove(0);
        assert(entry_views(left).len() == left.len());
        assert(entry_views(left)[0] == entry@);
        assert(entry@ == all[done]);
        assert(entry_views(rest@) =~= entry_views(left).skip(1));
        assert(all.skip(done).skip(1) =~= all.skip(done + 1));
        assert(all.take(done + 1).drop_last() =~= all.take(done));
        assert(all.take(done + 1).last() == all[done]);
        if let Some(kept) = strip_entry(entry) {
            let ghost before = entry_views(out@);
            let ghost seen = kept@;
            out.push(kept);
            assert(entry_views(out@) =~= before.push(seen));
        }
        proof {
            done = done + 1;
        }
    }
    assert(entry_views(rest@).len() == 0);
    assert(all.take(done) =~= all);
    out
}

fn strip_table(table: Vec<(String, EventValue)>) -> (r: Vec<(String, EventValue)>)
    ensures
        table_view(r@) == stripped(table_view(table@)),
{
    let ghost all = table_view(table@);
    let mut rest = table;
    let mut out: Vec<(String, EventValue)> = Vec::new();
    let ghost mut done: int = 0;
    assert(all.take(0) =~= Seq::empty());
    assert(table_view(out@) =~= Seq::empty());
    assert(all.skip(0) =~= all);
    while rest.len() > 0
        invariant
            0 <= done <= all.len(),
            table_view(rest@) == all.skip(done),
            table_view(out@) == stripped(all.take(done)),
        decreases rest@.len(),
    {
        let ghost left = rest@;
        let (event, value) = rest.remove(0);
        assert(table_view(left).len() == left.len());
        assert(table_view(left)[0] == (event@, value@));
        assert((event@, value@) == all[done]);
        assert(table_view(rest@) =~= table_view(left).skip(1));
        assert(all.skip(done).skip(1) =~= all.skip(done + 1));
        assert(all.take(done + 1).drop_last() =~= all.take(done));
        assert(all.take(done + 1).last() == all[done]);
        let ghost before = table_view(out@);
        match value {
            EventValue::Other(json) => {
                out.push((event, EventValue::Other(json)));
                assert(table_view(out@) =~= before.push(all[done]));
            },
            EventValue::Entries(entries) => {
                let kept = strip_entries(entries);
                assert(entry_views(kept@).len() == kept@.len());
                if kept.len() > 0 {
                    let ghost seen = (event@, EventView::Entries(entry_views(kept@)));
                    out.push((event, EventValue::Entries(kept)));
                    assert(table_view(out@) =~= before.push(seen));
                }
            },
        }
        proof {
            done = done + 1;
        }
    }
    assert(table_view(rest@).len() == 0);
    assert(all.take(done) =~= all);
    out
}

fn find_event(table: &Vec<(String, EventValue)>, event: &str) -> (r: Option<usize>)
    ensures
        match keyed::slot(table_view(table@), event@) {
            Some(i) => 0 <= i < table@.len() && (r matches Some(at) && at == i),
            None => r is None,
        },
{
    let ghost all = table_view(table@);
    let mut i: usize = 0;
    assert(all.skip(0) =~= all);
    while i < table.len()
        invariant
            all == table_view(table@),
            i <= table@.len(),
            keyed::slot(all, event@) == (match keyed::slot(all.skip(i as int), event@) {
                Some(k) => Some(k + i),
                None => None::<int>,
            }),
        decreases table@.len() - i,
    {
        assert(all.skip(i as int)[0] == all[i as int]);
        assert(all.skip(i as int).skip(1) =~= all.skip(i + 1));
        if text::same(table[i].0.as_str(), event) {
            return Some(i);
        }
        i += 1;
    }
    None
}

fn extend(table: &mut Vec<(String, EventValue)>, event: String, entries: Vec<Entry>) -> (r: bool)
    ensures
        match extended(table_view(old(table)@), event@, entry_views(entries@)) {
            Some(after) => r && table_view(final(table)@) == after,
            None => !r,
        },
{
    let ghost all = table_view(table@);
    let ghost new = entry_views(entries@);
    proof {
        keyed::lemma_slot(all, event@);
    }
    match find_event(table, event.as_str()) {
        None => {
            let ghost entry = (event@, EventView::Entries(new));
            let mut i: usize = 0;
            assert(all.skip(0) =~= all);
            while i < table.len() && !text::comes_before(event.as_str(), table[i].0.as_str())
                invariant
                    all == table_view(table@),
                    i <= table@.len(),
                    keyed::place(all, event@) == i + keyed::place(all.skip(i as int), event@),
                decreases table@.len() - i,
            {
                assert(all.skip(i as int)[0] == all[i as int]);
                assert(all.skip(i as int).skip(1) =~= all.skip(i + 1));
                i += 1;
            }
            if i < table.len() {
                assert(all.skip(i as int)[0] == all[i as int]);
            }
            table.insert(i, (event, EventValue::Entries(entries)));
            assert(table_view(table@) =~= all.insert(i as int, entry));
            true
        },
        Some(i) => {
            let ghost start = table@;
            let (name, value) = table.remove(i);
            assert((name@, value@) == all[i as int]);
            match value {
                EventValue::Other(_) => false,
                EventValue::Entries(present) => {
                    let ghost old_entries = entry_views(present@);
                    let mut present = present;
                    let mut entries = entries;
                    let ghost added = entries@;
                    let ghost was = present@;
                    present.append(&mut entries);
                    assert(entry_views(present@) =~= old_entries + new);
                    let ghost entry = (event@, EventView::Entries(old_entries + new));
                    table.insert(i, (event, EventValue::Entries(present)));
                    assert(table_view(table@) =~= all.update(i as int, entry));
                    true
                },
            }
        },
    }
}

/// New hooks as plain values.
pub open spec fn new_view(v: Seq<(String, Vec<Entry>)>) -> Seq<(Seq<char>, Seq<EntryView>)> {
    v.map_values(|p: (String, Vec<Entry>)| (p.0@, entry_views(p.1@)))
}

/// Merges hooks into the `hooks` of a settings file: earlier hooks of this client
/// are replaced, and nothing else is touched.
pub fn merge_hooks(table: Vec<(String, EventValue)>, new: Vec<(String, Vec<Entry>)>) -> (r: Result<
    Vec<(String, EventValue)>,
    String,
>)
    ensures
        match merged(table_view(table@), new_view(new@)) {
            Some(after) => r matches Ok(left) && table_view(left@) == after,
            None => text::fault(r) == Some("hook event must be an array"@),
        },
{
    let ghost all = new_view(new@);
    let ghost start = stripped(table_view(table@));
    let mut out = strip_table(table);
    let mut rest = new;
    let ghost mut done: int = 0;
    assert(all.skip(0) =~= all);
    while rest.len() > 0
        invariant
            0 <= done <= all.len(),
            new_view(rest@) == all.skip(done),
            with_new(start, all, done) == Some(table_view(out@)),
            start == stripped(table_view(table@)),
            all == new_view(new@),
        decreases rest@.len(),
    {
        let ghost left = rest@;
        let (event, entries) = rest.remove(0);
        assert(new_view(left).len() == left.len());
        assert(new_view(left)[0] == (event@, entry_views(entries@)));
        assert((event@, entry_views(entries@)) == all[done]);
        assert(new_view(rest@) =~= new_view(left).skip(1));
        assert(all.skip(done).skip(1) =~= all.skip(done + 1));
        if !extend(&mut out, event, entries) {
            proof {
                lemma_no_more(start, all, done + 1, all.len() as int);
            }
            return Err("hook event must be an array".to_owned());
        }
        proof {
            done = done + 1;
        }
    }
    assert(new_view(rest@).len() == 0);
    Ok(out)
}

proof fn lemma_no_more(
    table: Seq<(Seq<char>, EventView)>,
    new: Seq<(Seq<char>, Seq<EntryView>)>,
    count: int,
    more: int,
)
    requires
        with_new(table, new, count) is None,
        count <= more,
    ensures
        with_new(table, new, more) is None,
    decreases more - count,
{
    if count < more {
        lemma_no_more(table, new, count, more - 1);
    }
}

// ---------------------------------------------------------------------- settings files

/// The text under a key of the object in a text, where both are there.
pub open spec fn text_under(source: Seq<char>, key: Seq<char>) -> Option<Seq<char>> {
    match members_of(source) {
        Some(members) => match keyed::value_at(members, key) {
            Some(value) => match json_value(value) {
                Some(JsonView::Text(s)) => Some(s),
                _ => None,
            },
            None => None,
        },
        None => None,
    }
}

/// The items under a key of the object in a text, where both are there.
pub open spec fn items_under(source: Seq<char>, key: Seq<char>) -> Option<Seq<Seq<char>>> {
    match members_of(source) {
        Some(members) => match keyed::value_at(members, key) {
            Some(value) => items_of(value),
            None => None,
        },
        None => None,
    }
}

/// The hook in a text.
pub open spec fn hook_in(source: Seq<char>) -> HookView {
    HookView { command: text_under(source, "command"@), json: source }
}

/// The entry in a text.
pub open spec fn entry_in(source: Seq<char>) -> EntryView {
    EntryView {
        json: source,
        hooks: match items_under(source, "hooks"@) {
            Some(items) => Some(items.map_values(|item: Seq<char>| hook_in(item))),
            None => None,
        },
    }
}

/// What stands under an event.
pub open spec fn event_in(source: Seq<char>) -> EventView {
    match items_of(source) {
        Some(items) => EventView::Entries(items.map_values(|item: Seq<char>| entry_in(item))),
        None => EventView::Other(source),
    }
}

/// The events of a `hooks` object.
pub open spec fn table_in(members: Seq<(Seq<char>, Seq<char>)>) -> Seq<(Seq<char>, EventView)> {
    members.map_values(|m: (Seq<char>, Seq<char>)| (m.0, event_in(m.1)))
}

/// An entry as JSON: its own members, with the hooks that it has now.
pub open spec fn entry_json(entry: EntryView) -> Seq<char> {
    match (entry.hooks, members_of(entry.json)) {
        (Some(hooks), Some(members)) => json_object(
            keyed::put(
                members,
                "hooks"@,
                json_list(hooks.map_values(|hook: HookView| hook.json)),
            ),
        ),
        _ => entry.json,
    }
}

/// What stands under an event as JSON.
pub open spec fn event_json(value: EventView) -> Seq<char> {
    match value {
        EventView::Entries(entries) => json_list(
            entries.map_values(|entry: EntryView| entry_json(entry)),
        ),
        EventView::Other(json) => json,
    }
}

/// The events of a `hooks` object, each as JSON.
pub open spec fn event_members(table: Seq<(Seq<char>, EventView)>) -> Seq<
    (Seq<char>, Seq<char>),
> {
    table.map_values(|e: (Seq<char>, EventView)| (e.0, event_json(e.1)))
}

/// The events of a `hooks` object as JSON.
pub open spec fn table_json(table: Seq<(Seq<char>, EventView)>) -> Seq<char> {
    json_object(event_members(table))
}

/// An entry, an event and the events of a `hooks` object as they read once they are
/// written.
pub open spec fn reread_entry(entry: EntryView) -> EntryView {
    EntryView { json: entry_json(entry), hooks: entry.hooks }
}

pub open spec fn reread_event(value: EventView) -> EventView {
    match value {
        EventView::Entries(entries) => EventView::Entries(
            entries.map_values(|entry: EntryView| reread_entry(entry)),
        ),
        EventView::Other(_) => value,
    }
}

pub open spec fn reread_table(table: Seq<(Seq<char>, EventView)>) -> Seq<(Seq<char>, EventView)> {
    table.map_values(|e: (Seq<char>, EventView)| (e.0, reread_event(e.1)))
}

/// Hooks that stand as they are written and read as what they are. Of the 127 levels that
/// a settings file may have, its `hooks` are left 126, an event 125, an entry 124, its list
/// of hooks 123 and each of these 122.
pub open spec fn sound_hooks(hooks: Seq<HookView>) -> bool {
    forall|i: int|
        0 <= i < hooks.len() ==> written((#[trigger] hooks[i]).json) && proper(hooks[i].json, 122)
            && hook_in(hooks[i].json) == hooks[i]
}

/// An entry that can be written and read again.
pub open spec fn sound_entry(entry: EntryView) -> bool {
    proper(entry.json, 124) && match entry.hooks {
        Some(hooks) => members_of(entry.json) is Some && sound_hooks(hooks),
        None => written(entry.json) && entry_in(entry.json) == entry,
    }
}

pub open spec fn sound_entries(entries: Seq<EntryView>) -> bool {
    forall|i: int| 0 <= i < entries.len() ==> sound_entry(#[trigger] entries[i])
}

pub open spec fn sound_event(value: EventView) -> bool {
    match value {
        EventView::Entries(entries) => sound_entries(entries),
        EventView::Other(json) => written(json) && proper(json, 125) && event_in(json) == value,
    }
}

pub open spec fn sound_table(table: Seq<(Seq<char>, EventView)>) -> bool {
    keyed::rising(table) && forall|i: int|
        0 <= i < table.len() ==> sound_event((#[trigger] table[i]).1)
}

/// New hooks that can be written and read again.
pub open spec fn sound_new(new: Seq<(Seq<char>, Seq<EntryView>)>) -> bool {
    forall|i: int| 0 <= i < new.len() ==> sound_entries((#[trigger] new[i]).1)
}

// What is read is sound.

proof fn lemma_entry_read(source: Seq<char>)
    requires
        written(source),
        proper(source, 124),
    ensures
        sound_entry(entry_in(source)),
{
    if let Some(items) = items_under(source, "hooks"@) {
        let members = members_of(source)->0;
        keyed::lemma_slot(members, "hooks"@);
        let i = keyed::slot(members, "hooks"@)->0;
        assert(proper(members[i].1, 123));
        let hooks = entry_in(source).hooks->0;
        assert forall|k: int| 0 <= k < hooks.len() implies written((#[trigger] hooks[k]).json)
            && proper(hooks[k].json, 122) && hook_in(hooks[k].json) == hooks[k] by {
            assert(hooks[k] == hook_in(items[k]));
        }
    }
}

proof fn lemma_event_read(source: Seq<char>)
    requires
        written(source),
        proper(source, 125),
    ensures
        sound_event(event_in(source)),
{
    if let Some(items) = items_of(source) {
        let entries = event_in(source)->Entries_0;
        assert forall|k: int| 0 <= k < entries.len() implies sound_entry(#[trigger] entries[k]) by {
            assert(proper(items[k], 124));
            lemma_entry_read(items[k]);
        }
    }
}

proof fn lemma_table_read(members: Seq<(Seq<char>, Seq<char>)>)
    requires
        keyed::rising(members),
        values_written(members),
        forall|i: int| 0 <= i < members.len() ==> proper((#[trigger] members[i]).1, 125),
    ensures
        sound_table(table_in(members)),
{
    let table = table_in(members);
    assert forall|i: int, j: int| 0 <= i < j < table.len() implies text::precedes(
        (#[trigger] table[i]).0,
        (#[trigger] table[j]).0,
    ) by {
        assert(text::precedes(members[i].0, members[j].0));
    }
    assert forall|i: int| 0 <= i < table.len() implies sound_event((#[trigger] table[i]).1) by {
        assert(written(members[i].1));
        lemma_event_read(members[i].1);
    }
}

// A merge keeps what is sound.

proof fn lemma_others_sound(hooks: Seq<HookView>)
    requires
        sound_hooks(hooks),
    ensures
        sound_hooks(others(hooks)),
    decreases hooks.len(),
{
    if hooks.len() > 0 {
        assert(hooks[hooks.len() - 1] == hooks.last());
        assert forall|i: int| 0 <= i < hooks.drop_last().len() implies written(
            (#[trigger] hooks.drop_last()[i]).json,
        ) && proper(hooks.drop_last()[i].json, 122) && hook_in(hooks.drop_last()[i].json)
            == hooks.drop_last()[i] by {
            assert(hooks.drop_last()[i] == hooks[i]);
        }
        lemma_others_sound(hooks.drop_last());
    }
}

proof fn lemma_stripped_entries_sound(entries: Seq<EntryView>)
    requires
        sound_entries(entries),
    ensures
        sound_entries(stripped_entries(entries)),
    decreases entries.len(),
{
    if entries.len() > 0 {
        assert forall|i: int| 0 <= i < entries.drop_last().len() implies sound_entry(
            #[trigger] entries.drop_last()[i],
        ) by {
            assert(entries.drop_last()[i] == entries[i]);
        }
        lemma_stripped_entries_sound(entries.drop_last());
        assert(sound_entry(entries[entries.len() - 1]));
        if let Some(hooks) = entries.last().hooks {
            lemma_others_sound(hooks);
        }
    }
}

proof fn lemma_stripped_sound(table: Seq<(Seq<char>, EventView)>)
    requires
        sound_table(table),
    ensures
        sound_table(stripped(table)),
        forall|i: int|
            0 <= i < stripped(table).len() ==> exists|j: int|
                0 <= j < table.len() && (#[trigger] table[j]).0 == (
                #[trigger] stripped(table)[i]).0,
    decreases table.len(),
{
    if table.len() > 0 {
        let front = table.drop_last();
        assert forall|i: int| 0 <= i < front.len() implies sound_event(
            (#[trigger] front[i]).1,
        ) by {
            assert(front[i] == table[i]);
        }
        lemma_stripped_sound(front);
        let last = table[table.len() - 1];
        assert(sound_event(last.1));
        if let EventView::Entries(entries) = last.1 {
            lemma_stripped_entries_sound(entries);
        }
        let kept = stripped(front);
        let all = stripped(table);
        assert forall|i: int| 0 <= i < all.len() implies exists|j: int|
            0 <= j < table.len() && (#[trigger] table[j]).0 == (#[trigger] all[i]).0 by {
            if i < kept.len() {
                let j = choose|j: int|
                    0 <= j < front.len() && (#[trigger] front[j]).0 == kept[i].0;
                assert(table[j].0 == all[i].0);
            } else {
                assert(table[table.len() - 1].0 == all[i].0);
            }
        }
        assert forall|i: int, k: int| 0 <= i < k < all.len() implies text::precedes(
            (#[trigger] all[i]).0,
            (#[trigger] all[k]).0,
        ) by {
            if k < kept.len() {
                assert(text::precedes(kept[i].0, kept[k].0));
            } else {
                let j = choose|j: int|
                    0 <= j < front.len() && (#[trigger] front[j]).0 == kept[i].0;
                assert(text::precedes(table[j].0, table[table.len() - 1].0));
            }
        }
        assert forall|i: int| 0 <= i < all.len() implies sound_event((#[trigger] all[i]).1) by {
            if i < kept.len() {
                assert(all[i] == kept[i]);
            }
        }
    }
}

proof fn lemma_new_sound(
    table: Seq<(Seq<char>, EventView)>,
    new: Seq<(Seq<char>, Seq<EntryView>)>,
    count: int,
)
    requires
        sound_table(table),
        sound_new(new),
        count <= new.len(),
    ensures
        with_new(table, new, count) matches Some(after) ==> sound_table(after),
    decreases count,
{
    if count > 0 {
        lemma_new_sound(table, new, count - 1);
        if let Some(earlier) = with_new(table, new, count - 1) {
            let (event, entries) = new[count - 1];
            assert(sound_entries(entries));
            keyed::lemma_slot(earlier, event);
            if let Some(after) = extended(earlier, event, entries) {
                let value = keyed::value_at(after, event)->0;
                let set = match keyed::value_at(earlier, event) {
                    Some(EventView::Entries(present)) => EventView::Entries(present + entries),
                    _ => EventView::Entries(entries),
                };
                assert(sound_event(set)) by {
                    if let Some(EventView::Entries(present)) = keyed::value_at(earlier, event) {
                        let i = keyed::slot(earlier, event)->0;
                        assert(sound_event(earlier[i].1));
                        assert forall|k: int| 0 <= k < (present + entries).len() implies sound_entry(
                            #[trigger] (present + entries)[k],
                        ) by {
                            if k < present.len() {
                                assert(sound_entry(present[k]));
                            } else {
                                assert(sound_entry(entries[k - present.len()]));
                            }
                        }
                    }
                }
                keyed::lemma_put_rises(earlier, event, set);
                assert forall|i: int| 0 <= i < after.len() implies sound_event(
                    (#[trigger] after[i]).1,
                ) by {
                    keyed::lemma_put_holds(earlier, event, set, i);
                    if after[i] != (event, set) {
                        let k = earlier.index_of(after[i]);
                        assert(sound_event(earlier[k].1));
                    }
                }
            }
        }
    }
}

// Entries that differ only in hooks that are set anew are written alike.

/// The members are the same once hooks are set.
spec fn same_beside_hooks(a: Seq<(Seq<char>, Seq<char>)>, b: Seq<(Seq<char>, Seq<char>)>) -> bool {
    forall|value: Seq<char>|
        keyed::put(a, "hooks"@, value) == #[trigger] keyed::put(b, "hooks"@, value)
}

spec fn alike_entry(a: EntryView, b: EntryView) -> bool {
    a.hooks == b.hooks && match a.hooks {
        Some(_) => members_of(a.json) is Some && members_of(b.json) is Some && same_beside_hooks(
            members_of(a.json)->0,
            members_of(b.json)->0,
        ),
        None => a.json == b.json,
    }
}

spec fn alike_entries(a: Seq<EntryView>, b: Seq<EntryView>) -> bool {
    a.len() == b.len() && forall|i: int|
        0 <= i < a.len() ==> alike_entry(#[trigger] a[i], #[trigger] b[i])
}

spec fn alike_event(a: EventView, b: EventView) -> bool {
    match (a, b) {
        (EventView::Entries(x), EventView::Entries(y)) => alike_entries(x, y),
        (EventView::Other(x), EventView::Other(y)) => x == y,
        _ => false,
    }
}

spec fn alike(a: Seq<(Seq<char>, EventView)>, b: Seq<(Seq<char>, EventView)>) -> bool {
    a.len() == b.len() && forall|i: int|
        0 <= i < a.len() ==> (#[trigger] a[i]).0 == (#[trigger] b[i]).0 && alike_event(
            a[i].1,
            b[i].1,
        )
}

proof fn lemma_alike_entries_stripped(a: Seq<EntryView>, b: Seq<EntryView>)
    requires
        alike_entries(a, b),
    ensures
        alike_entries(stripped_entries(a), stripped_entries(b)),
    decreases a.len(),
{
    if a.len() > 0 {
        assert forall|i: int| 0 <= i < a.drop_last().len() implies alike_entry(
            #[trigger] a.drop_last()[i],
            #[trigger] b.drop_last()[i],
        ) by {
            assert(alike_entry(a[i], b[i]));
        }
        lemma_alike_entries_stripped(a.drop_last(), b.drop_last());
        assert(alike_entry(a[a.len() - 1], b[b.len() - 1]));
    }
}

proof fn lemma_alike_stripped(a: Seq<(Seq<char>, EventView)>, b: Seq<(Seq<char>, EventView)>)
    requires
        alike(a, b),
    ensures
        alike(stripped(a), stripped(b)),
    decreases a.len(),
{
    if a.len() > 0 {
        assert forall|i: int| 0 <= i < a.drop_last().len() implies (#[trigger] a.drop_last()[i]).0
            == (#[trigger] b.drop_last()[i]).0 && alike_event(
            a.drop_last()[i].1,
            b.drop_last()[i].1,
        ) by {
            assert(a[i].0 == b[i].0);
        }
        lemma_alike_stripped(a.drop_last(), b.drop_last());
        assert(a[a.len() - 1].0 == b[b.len() - 1].0);
        if let (EventView::Entries(x), EventView::Entries(y)) = (a.last().1, b.last().1) {
            lemma_alike_entries_stripped(x, y);
        }
    }
}

proof fn lemma_alike_keys(
    a: Seq<(Seq<char>, EventView)>,
    b: Seq<(Seq<char>, EventView)>,
    key: Seq<char>,
)
    requires
        alike(a, b),
    ensures
        keyed::slot(a, key) == keyed::slot(b, key),
        keyed::place(a, key) == keyed::place(b, key),
    decreases a.len(),
{
    if a.len() > 0 {
        assert(a[0].0 == b[0].0);
        assert forall|i: int| 0 <= i < a.skip(1).len() implies (#[trigger] a.skip(1)[i]).0 == (
        #[trigger] b.skip(1)[i]).0 && alike_event(a.skip(1)[i].1, b.skip(1)[i].1) by {
            assert(a[i + 1].0 == b[i + 1].0);
        }
        lemma_alike_keys(a.skip(1), b.skip(1), key);
    }
}

proof fn lemma_alike_put(
    a: Seq<(Seq<char>, EventView)>,
    b: Seq<(Seq<char>, EventView)>,
    key: Seq<char>,
    x: EventView,
    y: EventView,
)
    requires
        alike(a, b),
        alike_event(x, y),
    ensures
        alike(keyed::put(a, key, x), keyed::put(b, key, y)),
{
    lemma_alike_keys(a, b, key);
    keyed::lemma_slot(a, key);
    keyed::lemma_place(a, key);
    let c = keyed::put(a, key, x);
    let d = keyed::put(b, key, y);
    assert forall|i: int| 0 <= i < c.len() implies (#[trigger] c[i]).0 == (#[trigger] d[i]).0
        && alike_event(c[i].1, d[i].1) by {
        let p = keyed::place(a, key);
        if keyed::slot(a, key) is None && i > p {
            assert(a[i - 1].0 == b[i - 1].0);
        } else if i < a.len() {
            assert(a[i].0 == b[i].0);
        }
    }
}

proof fn lemma_alike_new(
    a: Seq<(Seq<char>, EventView)>,
    b: Seq<(Seq<char>, EventView)>,
    new: Seq<(Seq<char>, Seq<EntryView>)>,
    count: int,
)
    requires
        alike(a, b),
        sound_new(new),
        count <= new.len(),
    ensures
        match (with_new(a, new, count), with_new(b, new, count)) {
            (Some(c), Some(d)) => alike(c, d),
            (None, None) => true,
            _ => false,
        },
    decreases count,
{
    if count > 0 {
        lemma_alike_new(a, b, new, count - 1);
        if let (Some(c), Some(d)) = (with_new(a, new, count - 1), with_new(b, new, count - 1)) {
            let (event, entries) = new[count - 1];
            assert(sound_entries(entries));
            assert(alike_entries(entries, entries)) by {
                assert forall|i: int| 0 <= i < entries.len() implies alike_entry(
                    #[trigger] entries[i],
                    entries[i],
                ) by {
                    assert(sound_entry(entries[i]));
                }
            }
            lemma_alike_keys(c, d, event);
            keyed::lemma_slot(c, event);
            match keyed::slot(c, event) {
                None => {
                    lemma_alike_put(
                        c,
                        d,
                        event,
                        EventView::Entries(entries),
                        EventView::Entries(entries),
                    );
                },
                Some(i) => {
                    assert(c[i].0 == d[i].0 && alike_event(c[i].1, d[i].1));
                    if let (EventView::Entries(x), EventView::Entries(y)) = (c[i].1, d[i].1) {
                        assert forall|k: int| 0 <= k < (x + entries).len() implies alike_entry(
                            #[trigger] (x + entries)[k],
                            #[trigger] (y + entries)[k],
                        ) by {
                            if k < x.len() {
                                assert(alike_entry(x[k], y[k]));
                            } else {
                                let at = k - x.len();
                                assert(alike_entry(entries[at], entries[at]));
                            }
                        }
                        lemma_alike_put(
                            c,
                            d,
                            event,
                            EventView::Entries(x + entries),
                            EventView::Entries(y + entries),
                        );
                    }
                },
            }
        }
    }
}

proof fn lemma_alike_written(a: Seq<(Seq<char>, EventView)>, b: Seq<(Seq<char>, EventView)>)
    requires
        alike(a, b),
    ensures
        table_json(a) == table_json(b),
{
    let x = event_members(a);
    let y = event_members(b);
    assert forall|i: int| 0 <= i < x.len() implies x[i] == y[i] by {
        assert(a[i].0 == b[i].0 && alike_event(a[i].1, b[i].1));
        if let (EventView::Entries(c), EventView::Entries(d)) = (a[i].1, b[i].1) {
            let u = c.map_values(|entry: EntryView| entry_json(entry));
            let v = d.map_values(|entry: EntryView| entry_json(entry));
            assert forall|k: int| 0 <= k < u.len() implies u[k] == v[k] by {
                assert(alike_entry(c[k], d[k]));
            }
            assert(u =~= v);
        }
    }
    assert(x =~= y);
}

/// An entry keeps its other members when it is written.
pub open spec fn settled(entry: EntryView) -> bool {
    entry.hooks matches Some(hooks) ==> members_of(entry.json) is Some && members_of(
        entry_json(entry),
    ) == Some(
        keyed::put(
            members_of(entry.json)->0,
            "hooks"@,
            json_list(hooks.map_values(|hook: HookView| hook.json)),
        ),
    )
}

pub open spec fn settled_event(value: EventView) -> bool {
    match value {
        EventView::Entries(entries) => forall|i: int|
            0 <= i < entries.len() ==> settled(#[trigger] entries[i]),
        EventView::Other(_) => true,
    }
}

pub open spec fn settled_table(table: Seq<(Seq<char>, EventView)>) -> bool {
    forall|i: int| 0 <= i < table.len() ==> settled_event((#[trigger] table[i]).1)
}

proof fn lemma_reread_alike(table: Seq<(Seq<char>, EventView)>)
    requires
        settled_table(table),
    ensures
        alike(reread_table(table), table),
{
    let again = reread_table(table);
    assert forall|i: int| 0 <= i < again.len() implies (#[trigger] again[i]).0 == (
    #[trigger] table[i]).0 && alike_event(again[i].1, table[i].1) by {
        assert(settled_event(table[i].1));
        if let EventView::Entries(entries) = table[i].1 {
            let read = again[i].1->Entries_0;
            assert forall|k: int| 0 <= k < read.len() implies alike_entry(
                #[trigger] read[k],
                #[trigger] entries[k],
            ) by {
                assert(settled(entries[k]));
                if let Some(hooks) = entries[k].hooks {
                    let members = members_of(entries[k].json)->0;
                    let list = json_list(hooks.map_values(|hook: HookView| hook.json));
                    assert forall|value: Seq<char>|
                        keyed::put(keyed::put(members, "hooks"@, list), "hooks"@, value)
                            == #[trigger] keyed::put(members, "hooks"@, value) by {
                        keyed::lemma_put_again(members, "hooks"@, list, value);
                    }
                }
            }
        }
    }
}

/// Events that were merged, written and read again merge to what is written the same.
proof fn lemma_reread_merges_alike(
    table: Seq<(Seq<char>, EventView)>,
    new: Seq<(Seq<char>, Seq<EntryView>)>,
    once: Seq<(Seq<char>, EventView)>,
)
    requires
        all_ours(new),
        sound_new(new),
        merged(table, new) == Some(once),
        settled_table(once),
    ensures
        merged(reread_table(once), new) matches Some(twice) && table_json(twice) == table_json(
            once,
        ),
{
    lemma_reread_alike(once);
    law_merging_again_changes_nothing(table, new);
    lemma_alike_stripped(reread_table(once), once);
    lemma_alike_new(stripped(reread_table(once)), stripped(once), new, new.len() as int);
    lemma_alike_written(merged(reread_table(once), new)->0, once);
}

fn read_members(source: &str) -> (r: Option<Vec<(String, String)>>)
    ensures
        match r {
            Some(members) => members_of(source@) == Some(plugins::pair_texts(members@)),
            None => members_of(source@) is None,
        },
{
    match read_json(source) {
        Some(Json::Object(members)) => Some(members),
        _ => None,
    }
}

fn read_items(source: &str) -> (r: Option<Vec<String>>)
    ensures
        match r {
            Some(items) => items_of(source@) == Some(text::texts(items@)),
            None => items_of(source@) is None,
        },
{
    match read_json(source) {
        Some(Json::List(items)) => Some(items),
        _ => None,
    }
}

fn read_hook(source: &str) -> (r: Hook)
    ensures
        r@ == hook_in(source@),
{
    let command = match read_members(source) {
        Some(members) => match find_member(&members, "command") {
            Some(i) => match read_json(members[i].1.as_str()) {
                Some(Json::Text(command)) => Some(command),
                _ => None,
            },
            None => None,
        },
        None => None,
    };
    Hook { command, json: source.to_owned() }
}

fn read_entry(source: &str) -> (r: Entry)
    ensures
        r@ == entry_in(source@),
{
    let items = match read_members(source) {
        Some(members) => match find_member(&members, "hooks") {
            Some(i) => read_items(members[i].1.as_str()),
            None => None,
        },
        None => None,
    };
    let hooks = match items {
        None => None,
        Some(items) => {
            let ghost all = text::texts(items@).map_values(|item: Seq<char>| hook_in(item));
            let mut hooks: Vec<Hook> = Vec::new();
            let mut i: usize = 0;
            assert(hook_views(hooks@) =~= all.take(0));
            while i < items.len()
                invariant
                    all == text::texts(items@).map_values(|item: Seq<char>| hook_in(item)),
                    i <= items@.len(),
                    hook_views(hooks@) == all.take(i as int),
                decreases items@.len() - i,
            {
                let ghost before = hook_views(hooks@);
                hooks.push(read_hook(items[i].as_str()));
                assert(hook_views(hooks@) =~= before.push(all[i as int]));
                assert(all.take(i + 1) =~= all.take(i as int).push(all[i as int]));
                i += 1;
            }
            assert(all.take(i as int) =~= all);
            Some(hooks)
        },
    };
    Entry { json: source.to_owned(), hooks }
}

fn read_event(source: &str) -> (r: EventValue)
    ensures
        r@ == event_in(source@),
{
    match read_items(source) {
        None => EventValue::Other(source.to_owned()),
        Some(items) => {
            let ghost all = text::texts(items@).map_values(|item: Seq<char>| entry_in(item));
            let mut entries: Vec<Entry> = Vec::new();
            let mut i: usize = 0;
            assert(entry_views(entries@) =~= all.take(0));
            while i < items.len()
                invariant
                    all == text::texts(items@).map_values(|item: Seq<char>| entry_in(item)),
                    i <= items@.len(),
                    entry_views(entries@) == all.take(i as int),
                decreases items@.len() - i,
            {
                let ghost before = entry_views(entries@);
                entries.push(read_entry(items[i].as_str()));
                assert(entry_views(entries@) =~= before.push(all[i as int]));
                assert(all.take(i + 1) =~= all.take(i as int).push(all[i as int]));
                i += 1;
            }
            assert(all.take(i as int) =~= all);
            EventValue::Entries(entries)
        },
    }
}

fn read_table(members: &Vec<(String, String)>) -> (r: Vec<(String, EventValue)>)
    ensures
        table_view(r@) == table_in(plugins::pair_texts(members@)),
{
    let ghost all = table_in(plugins::pair_texts(members@));
    let mut out: Vec<(String, EventValue)> = Vec::new();
    let mut i: usize = 0;
    assert(table_view(out@) =~= all.take(0));
    while i < members.len()
        invariant
            all == table_in(plugins::pair_texts(members@)),
            i <= members@.len(),
            table_view(out@) == all.take(i as int),
        decreases members@.len() - i,
    {
        let ghost before = table_view(out@);
        assert(plugins::pair_texts(members@)[i as int] == (members@[i as int].0@, members@[i as int].1@));
        out.push((members[i].0.clone(), read_event(members[i].1.as_str())));
        assert(table_view(out@) =~= before.push(all[i as int]));
        assert(all.take(i + 1) =~= all.take(i as int).push(all[i as int]));
        i += 1;
    }
    assert(all.take(i as int) =~= all);
    out
}

fn hooks_text(hooks: &Vec<Hook>) -> (r: String)
    ensures
        r@ == json_list(hook_views(hooks@).map_values(|hook: HookView| hook.json)),
        sound_hooks(hook_views(hooks@)) ==> written(r@) && proper(r@, 123) && items_of(r@) == Some(
            hook_views(hooks@).map_values(|hook: HookView| hook.json),
        ),
{
    let ghost all = hook_views(hooks@).map_values(|hook: HookView| hook.json);
    let mut texts: Vec<String> = Vec::new();
    let mut i: usize = 0;
    assert(text::texts(texts@) =~= all.take(0));
    while i < hooks.len()
        invariant
            all == hook_views(hooks@).map_values(|hook: HookView| hook.json),
            i <= hooks@.len(),
            text::texts(texts@) == all.take(i as int),
        decreases hooks@.len() - i,
    {
        let ghost before = text::texts(texts@);
        texts.push(hooks[i].json.clone());
        assert(hook_views(hooks@)[i as int] == hooks@[i as int]@);
        assert(text::texts(texts@) =~= before.push(all[i as int]));
        assert(all.take(i + 1) =~= all.take(i as int).push(all[i as int]));
        i += 1;
    }
    assert(all.take(i as int) =~= all);
    let out = write_items(&texts);
    proof {
        let views = hook_views(hooks@);
        if sound_hooks(views) {
            assert forall|k: int| 0 <= k < all.len() implies written(#[trigger] all[k]) && proper(
                all[k],
                122,
            ) by {
                assert(all[k] == views[k].json);
            }
            assert(proper(out@, 123));
            lemma_proper_within(out@, 123, 126);
        }
    }
    out
}

fn entry_text(entry: &Entry) -> (r: String)
    ensures
        r@ == entry_json(entry@),
        sound_entry(entry@) ==> written(r@) && proper(r@, 124) && settled(entry@) && entry_in(r@)
            == reread_entry(entry@),
{
    match (&entry.hooks, read_members(entry.json.as_str())) {
        (Some(hooks), Some(members)) => {
            let mut members = members;
            let ghost own = plugins::pair_texts(members@);
            let list = hooks_text(hooks);
            let ghost set = list@;
            set_member(&mut members, "hooks", list);
            let out = write_object(&members);
            proof {
                if sound_entry(entry@) {
                    lemma_members_put(own, "hooks"@, set, 123);
                    assert(json_value(out@) == Some(
                        JsonView::Object(keyed::put(own, "hooks"@, set)),
                    ));
                    assert(proper(out@, 124));
                    lemma_proper_within(out@, 124, 126);
                    lemma_entry_rereads(entry@, own, out@);
                }
            }
            out
        },
        _ => entry.json.clone(),
    }
}

proof fn lemma_entry_rereads(
    entry: EntryView,
    own: Seq<(Seq<char>, Seq<char>)>,
    out: Seq<char>,
)
    requires
        sound_entry(entry),
        entry.hooks is Some,
        members_of(entry.json) == Some(own),
        out == entry_json(entry),
        items_of(
            json_list(entry.hooks->0.map_values(|hook: HookView| hook.json)),
        ) == Some(entry.hooks->0.map_values(|hook: HookView| hook.json)),
        json_value(out) == Some(
            JsonView::Object(
                keyed::put(
                    own,
                    "hooks"@,
                    json_list(entry.hooks->0.map_values(|hook: HookView| hook.json)),
                ),
            ),
        ),
    ensures
        entry_in(out) == reread_entry(entry),
{
    let hooks = entry.hooks->0;
    let texts = hooks.map_values(|hook: HookView| hook.json);
    keyed::law_put_is_visible(own, "hooks"@, json_list(texts), "hooks"@);
    let read = texts.map_values(|item: Seq<char>| hook_in(item));
    assert(items_under(out, "hooks"@) == Some(texts));
    assert forall|i: int| 0 <= i < hooks.len() implies read[i] == hooks[i] by {
        assert(texts[i] == hooks[i].json);
        assert(hook_in(hooks[i].json) == hooks[i]);
    }
    assert(read =~= hooks);
}

proof fn lemma_members_put(
    members: Seq<(Seq<char>, Seq<char>)>,
    key: Seq<char>,
    value: Seq<char>,
    levels: nat,
)
    requires
        keyed::rising(members),
        values_written(members),
        forall|i: int| 0 <= i < members.len() ==> proper((#[trigger] members[i]).1, levels),
        written(value),
        proper(value, levels),
    ensures
        keyed::rising(keyed::put(members, key, value)),
        values_written(keyed::put(members, key, value)),
        forall|i: int|
            0 <= i < keyed::put(members, key, value).len() ==> proper(
                (#[trigger] keyed::put(members, key, value)[i]).1,
                levels,
            ),
{
    keyed::lemma_put_rises(members, key, value);
    let after = keyed::put(members, key, value);
    assert forall|i: int| 0 <= i < after.len() implies written((#[trigger] after[i]).1) && proper(
        after[i].1,
        levels,
    ) by {
        keyed::lemma_put_holds(members, key, value, i);
        if after[i] != (key, value) {
            let k = members.index_of(after[i]);
            assert(members[k] == after[i]);
        }
    }
}

fn event_text(value: &EventValue) -> (r: String)
    ensures
        r@ == event_json(value@),
        sound_event(value@) ==> written(r@) && proper(r@, 125) && settled_event(value@)
            && event_in(r@) == reread_event(value@),
{
    match value {
        EventValue::Other(json) => json.clone(),
        EventValue::Entries(entries) => {
            let ghost views = entry_views(entries@);
            let ghost all = views.map_values(|entry: EntryView| entry_json(entry));
            let mut texts: Vec<String> = Vec::new();
            let mut i: usize = 0;
            assert(text::texts(texts@) =~= all.take(0));
            while i < entries.len()
                invariant
                    views == entry_views(entries@),
                    all == views.map_values(|entry: EntryView| entry_json(entry)),
                    i <= entries@.len(),
                    text::texts(texts@) == all.take(i as int),
                    forall|k: int|
                        0 <= k < i && sound_entry(#[trigger] views[k]) ==> written(all[k])
                            && proper(all[k], 124) && settled(views[k]) && entry_in(all[k])
                            == reread_entry(views[k]),
                decreases entries@.len() - i,
            {
                let ghost before = text::texts(texts@);
                texts.push(entry_text(&entries[i]));
                assert(views[i as int] == entries@[i as int]@);
                assert(text::texts(texts@) =~= before.push(all[i as int]));
                assert(all.take(i + 1) =~= all.take(i as int).push(all[i as int]));
                i += 1;
            }
            assert(all.take(i as int) =~= all);
            let out = write_items(&texts);
            proof {
                if sound_entries(views) {
                    assert forall|k: int| 0 <= k < all.len() implies written(#[trigger] all[k])
                        && proper(all[k], 124) by {
                        assert(sound_entry(views[k]));
                    }
                    assert(json_value(out@) == Some(JsonView::List(all)));
                    assert(proper(out@, 125));
                    lemma_proper_within(out@, 125, 126);
                    let read = all.map_values(|item: Seq<char>| entry_in(item));
                    let wanted = views.map_values(|entry: EntryView| reread_entry(entry));
                    assert forall|k: int| 0 <= k < read.len() implies read[k] == wanted[k] by {
                        assert(sound_entry(views[k]));
                    }
                    assert(read =~= wanted);
                    assert forall|k: int| 0 <= k < views.len() implies settled(
                        #[trigger] views[k],
                    ) by {
                        assert(sound_entry(views[k]));
                    }
                }
            }
            out
        },
    }
}

fn table_text(table: &Vec<(String, EventValue)>) -> (r: String)
    ensures
        r@ == table_json(table_view(table@)),
        sound_table(table_view(table@)) ==> {
            &&& written(r@)
            &&& proper(r@, 126)
            &&& settled_table(table_view(table@))
            &&& members_of(r@) == Some(event_members(table_view(table@)))
            &&& table_in(event_members(table_view(table@))) == reread_table(table_view(table@))
        },
{
    let ghost views = table_view(table@);
    let ghost all = event_members(views);
    let mut members: Vec<(String, String)> = Vec::new();
    let mut i: usize = 0;
    assert(plugins::pair_texts(members@) =~= all.take(0));
    while i < table.len()
        invariant
            views == table_view(table@),
            all == event_members(views),
            i <= table@.len(),
            plugins::pair_texts(members@) == all.take(i as int),
            forall|k: int|
                0 <= k < i && sound_event((#[trigger] views[k]).1) ==> written(all[k].1) && proper(
                    all[k].1,
                    125,
                ) && settled_event(views[k].1) && event_in(all[k].1) == reread_event(views[k].1),
        decreases table@.len() - i,
    {
        let ghost before = plugins::pair_texts(members@);
        assert(views[i as int] == (table@[i as int].0@, table@[i as int].1@));
        members.push((table[i].0.clone(), event_text(&table[i].1)));
        assert(plugins::pair_texts(members@) =~= before.push(all[i as int]));
        assert(all.take(i + 1) =~= all.take(i as int).push(all[i as int]));
        i += 1;
    }
    assert(all.take(i as int) =~= all);
    let out = write_object(&members);
    proof {
        if sound_table(views) {
            assert forall|k: int, l: int| 0 <= k < l < all.len() implies text::precedes(
                (#[trigger] all[k]).0,
                (#[trigger] all[l]).0,
            ) by {
                assert(text::precedes(views[k].0, views[l].0));
            }
            assert forall|k: int| 0 <= k < all.len() implies written((#[trigger] all[k]).1)
                && proper(all[k].1, 125) by {
                assert(sound_event(views[k].1));
            }
            assert(json_value(out@) == Some(JsonView::Object(all)));
            assert(proper(out@, 126));
            let read = table_in(all);
            let wanted = reread_table(views);
            assert forall|k: int| 0 <= k < read.len() implies read[k] == wanted[k] by {
                assert(sound_event(views[k].1));
            }
            assert(read =~= wanted);
            assert forall|k: int| 0 <= k < views.len() implies settled_event(
                (#[trigger] views[k]).1,
            ) by {
                assert(sound_event(views[k].1));
            }
        }
    }
    out
}

/// The members of a settings file, or what is wrong with it. A missing file has none.
pub open spec fn settings_in(source: Option<Seq<char>>) -> Result<
    Seq<(Seq<char>, Seq<char>)>,
    Seq<char>,
> {
    match source {
        None => Ok(Seq::empty()),
        Some(source) => match json_value(source) {
            None => Err("parse settings.json"@),
            Some(JsonView::Object(members)) => Ok(members),
            Some(_) => Err("settings.json must be an object"@),
        },
    }
}

/// The events under `hooks`, or what is wrong with them. Settings without it have none.
pub open spec fn hooks_in(members: Seq<(Seq<char>, Seq<char>)>) -> Result<
    Seq<(Seq<char>, Seq<char>)>,
    Seq<char>,
> {
    match keyed::value_at(members, "hooks"@) {
        None => Ok(Seq::empty()),
        Some(value) => match members_of(value) {
            Some(events) => Ok(events),
            None => Err("hooks must be an object"@),
        },
    }
}

/// The text of a settings file whose `hooks` are these; its other members stay.
pub open spec fn settings_text(
    members: Seq<(Seq<char>, Seq<char>)>,
    table: Seq<(Seq<char>, EventView)>,
) -> Seq<char> {
    json_pretty(json_object(keyed::put(members, "hooks"@, table_json(table)))) + "\n"@
}

/// The settings file after hooks were merged into it, or why that cannot be.
pub open spec fn merged_settings(
    source: Option<Seq<char>>,
    new: Seq<(Seq<char>, Seq<EntryView>)>,
) -> Result<Seq<char>, Seq<char>> {
    match settings_in(source) {
        Err(fault) => Err(fault),
        Ok(members) => match hooks_in(members) {
            Err(fault) => Err(fault),
            Ok(events) => match merged(table_in(events), new) {
                Some(table) => Ok(settings_text(members, table)),
                None => Err("hook event must be an array"@),
            },
        },
    }
}

/// What a settings file says after hooks were merged into it: its `hooks` are the merged
/// ones, and every other member is as it was.
pub open spec fn says_merged(
    before: Seq<(Seq<char>, Seq<char>)>,
    new: Seq<(Seq<char>, Seq<EntryView>)>,
    after: Seq<(Seq<char>, Seq<char>)>,
) -> bool {
    &&& forall|key: Seq<char>|
        key != "hooks"@ ==> #[trigger] keyed::value_at(after, key) == keyed::value_at(before, key)
    &&& hooks_in(before) matches Ok(old) && (hooks_in(after) matches Ok(events) && (merged(
        table_in(old),
        new,
    ) matches Some(table) && table_in(events) == reread_table(table)))
}

/// Merges hooks into the text of a settings file; nothing stands for a missing file.
/// Earlier hooks of this client are replaced, and everything else in the file stays.
/// Merging hooks of this client into the result again changes nothing.
pub fn merge_settings(source: &Option<String>, new: Vec<(String, Vec<Entry>)>) -> (r: Result<
    String,
    String,
>)
    ensures
        match merged_settings(text::option_text(*source), new_view(new@)) {
            Ok(after) => r matches Ok(out) && out@ == after,
            Err(fault) => text::fault(r) == Some(fault),
        },
        sound_new(new_view(new@)) ==> (r matches Ok(out) ==> (settings_in(
            text::option_text(*source),
        ) matches Ok(before) && (settings_in(Some(out@)) matches Ok(after) && says_merged(
            before,
            new_view(new@),
            after,
        )))),
        all_ours(new_view(new@)) && sound_new(new_view(new@)) ==> (r matches Ok(out) ==>
            merged_settings(Some(out@), new_view(new@)) == Ok::<_, Seq<char>>(out@)),
{
    let ghost fresh = new_view(new@);
    let mut members = match source {
        None => {
            let none: Vec<(String, String)> = Vec::new();
            assert(plugins::pair_texts(none@) =~= Seq::empty());
            none
        },
        Some(source) => match read_json(source.as_str()) {
            None => return Err("parse settings.json".to_owned()),
            Some(Json::Object(members)) => members,
            Some(_) => return Err("settings.json must be an object".to_owned()),
        },
    };
    let events = match find_member(&members, "hooks") {
        None => {
            let none: Vec<(String, String)> = Vec::new();
            assert(plugins::pair_texts(none@) =~= Seq::empty());
            none
        },
        Some(i) => match read_members(members[i].1.as_str()) {
            Some(events) => events,
            None => return Err("hooks must be an object".to_owned()),
        },
    };
    let ghost own = plugins::pair_texts(members@);
    let ghost start = table_in(plugins::pair_texts(events@));
    proof {
        lemma_settings_read(own, plugins::pair_texts(events@));
    }
    match merge_hooks(read_table(&events), new) {
        Err(fault) => Err(fault),
        Ok(table) => {
            let ghost once = table_view(table@);
            let hooks = table_text(&table);
            let ghost set = hooks@;
            set_member(&mut members, "hooks", hooks);
            let object = write_object(&members);
            let mut out = pretty(object.as_str());
            out.append("\n");
            proof {
                if sound_new(fresh) {
                    lemma_stripped_sound(start);
                    lemma_new_sound(stripped(start), fresh, fresh.len() as int);
                    lemma_members_put(own, "hooks"@, set, 126);
                    let after = keyed::put(own, "hooks"@, set);
                    assert(json_value(object@) == Some(JsonView::Object(after)));
                    assert(settings_in(Some(out@)) == Ok::<_, Seq<char>>(after));
                    keyed::law_put_is_visible(own, "hooks"@, set, "hooks"@);
                    assert(hooks_in(after) == Ok::<_, Seq<char>>(event_members(once)));
                    assert forall|key: Seq<char>| key != "hooks"@ implies #[trigger] keyed::value_at(
                        after,
                        key,
                    ) == keyed::value_at(own, key) by {
                        keyed::law_put_is_visible(own, "hooks"@, set, key);
                    }
                    if all_ours(fresh) {
                        lemma_reread_merges_alike(start, fresh, once);
                        keyed::lemma_put_again(own, "hooks"@, set, set);
                    }
                }
            }
            Ok(out)
        },
    }
}

proof fn lemma_settings_read(
    members: Seq<(Seq<char>, Seq<char>)>,
    events: Seq<(Seq<char>, Seq<char>)>,
)
    requires
        keyed::rising(members),
        values_written(members),
        forall|i: int| 0 <= i < members.len() ==> proper((#[trigger] members[i]).1, 126),
        hooks_in(members) == Ok::<_, Seq<char>>(events),
    ensures
        sound_table(table_in(events)),
{
    keyed::lemma_slot(members, "hooks"@);
    if let Some(i) = keyed::slot(members, "hooks"@) {
        assert(proper(members[i].1, 126));
    }
    lemma_table_read(events);
}

/// New hooks as the events of a `hooks` object.
pub open spec fn as_table(new: Seq<(Seq<char>, Seq<EntryView>)>) -> Seq<(Seq<char>, EventView)> {
    new.map_values(|e: (Seq<char>, Seq<EntryView>)| (e.0, EventView::Entries(e.1)))
}

/// The settings that would be merged, as they would stand in an empty file.
pub fn hooks_preview(new: Vec<(String, Vec<Entry>)>) -> (r: String)
    ensures
        r@ == json_pretty(json_object(seq![("hooks"@, table_json(as_table(new_view(new@))))])),
{
    let ghost all = new_view(new@);
    let ghost wanted = as_table(all);
    let mut rest = new;
    let mut table: Vec<(String, EventValue)> = Vec::new();
    let ghost mut done: int = 0;
    assert(all.skip(0) =~= all);
    assert(table_view(table@) =~= wanted.take(0));
    while rest.len() > 0
        invariant
            0 <= done <= all.len(),
            wanted == as_table(all),
            new_view(rest@) == all.skip(done),
            table_view(table@) == wanted.take(done),
        decreases rest@.len(),
    {
        let ghost left = rest@;
        let ghost before = table_view(table@);
        let (event, entries) = rest.remove(0);
        assert(new_view(left).len() == left.len());
        assert(new_view(left)[0] == (event@, entry_views(entries@)));
        assert(all[done] == (event@, entry_views(entries@)));
        assert(new_view(rest@) =~= new_view(left).skip(1));
        assert(all.skip(done).skip(1) =~= all.skip(done + 1));
        table.push((event, EventValue::Entries(entries)));
        assert(table_view(table@) =~= before.push(wanted[done]));
        assert(wanted.take(done + 1) =~= wanted.take(done).push(wanted[done]));
        proof {
            done = done + 1;
        }
    }
    assert(new_view(rest@).len() == 0);
    assert(wanted.take(done) =~= wanted);
    let members: Vec<(String, String)> = vec![("hooks".to_owned(), table_text(&table))];
    assert(plugins::pair_texts(members@) =~= seq![("hooks"@, table_json(wanted))]);
    pretty(write_object(&members).as_str())
}

/// A hook of this client that reports a state.
pub open spec fn report_hook(state: Seq<char>) -> HookView {
    HookView {
        command: Some(report_line(state)),
        json: json_object(
            seq![
                ("command"@, json_text(report_line(state))),
                ("type"@, json_text("command"@)),
            ],
        ),
    }
}

/// The new entries under an event: one, with one hook.
pub open spec fn report_event(event: Seq<char>, rest: Seq<char>, state: Seq<char>) -> (
    Seq<char>,
    Seq<EntryView>,
) {
    (event, seq![EntryView { json: rest, hooks: Some(seq![report_hook(state)]) }])
}

fn report_entry(event: &str, rest: &str, state: &str) -> (r: (String, Vec<Entry>))
    ensures
        (r.0@, entry_views(r.1@)) == report_event(event@, rest@, state@),
        members_of(rest@) is Some && proper(rest@, 124) ==> sound_entries(entry_views(r.1@)),
{
    let command = report_command(state);
    let members: Vec<(String, String)> = vec![
        ("command".to_owned(), write_text(command.as_str())),
        ("type".to_owned(), write_text("command")),
    ];
    let ghost pairs = seq![
        ("command"@, json_text(report_line(state@))),
        ("type"@, json_text("command"@)),
    ];
    assert(plugins::pair_texts(members@) =~= pairs);
    let json = write_object(&members);
    proof {
        reveal_strlit("command");
        reveal_strlit("type");
        assert(text::precedes(pairs[0].0, pairs[1].0));
        assert(json_value(json@) == Some(JsonView::Object(pairs)));
        assert(proper(pairs[0].1, 121) && proper(pairs[1].1, 121));
        assert(proper(json@, 122));
        lemma_proper_within(json@, 122, 126);
        keyed::lemma_slot_first(pairs, "command"@, 0);
        assert(text_under(json@, "command"@) == Some(report_line(state@)));
    }
    let hook = Hook { json, command: Some(command) };
    let ghost seen = hook@;
    let hooks: Vec<Hook> = vec![hook];
    assert(hook_views(hooks@) =~= seq![seen]);
    let entry = Entry { json: rest.to_owned(), hooks: Some(hooks) };
    let ghost view = entry@;
    let entries: Vec<Entry> = vec![entry];
    assert(entry_views(entries@) =~= seq![view]);
    (event.to_owned(), entries)
}

/// The hooks of an agent whose turns begin and end with these events: it reports
/// `done`, `working` and `blocked`. `rest` is what else stands in each entry.
pub open spec fn lifecycle(ends: Seq<char>, begins: Seq<char>, rest: Seq<char>) -> Seq<
    (Seq<char>, Seq<EntryView>),
> {
    seq![
        report_event(ends, rest, "done"@),
        report_event(begins, rest, "working"@),
        report_event("Notification"@, rest, "blocked"@),
    ]
}

pub fn lifecycle_hooks(ends: &str, begins: &str, rest: &str) -> (r: Vec<(String, Vec<Entry>)>)
    ensures
        new_view(r@) == lifecycle(ends@, begins@, rest@),
        all_ours(new_view(r@)),
        members_of(rest@) is Some && proper(rest@, 124) ==> sound_new(new_view(r@)),
{
    let first = report_entry(ends, rest, "done");
    let second = report_entry(begins, rest, "working");
    let third = report_entry("Notification", rest, "blocked");
    let events: Vec<(String, Vec<Entry>)> = vec![first, second, third];
    assert(new_view(events@) =~= lifecycle(ends@, begins@, rest@));
    proof {
        law_own_hooks_are_recognized(ends@, begins@, rest@);
    }
    events
}

/// Every hook that this client adds is one that it finds again.
pub proof fn law_own_hooks_are_recognized(ends: Seq<char>, begins: Seq<char>, rest: Seq<char>)
    ensures
        all_ours(lifecycle(ends, begins, rest)),
{
    let new = lifecycle(ends, begins, rest);
    assert forall|i: int, j: int| 0 <= i < new.len() && 0 <= j < new[i].1.len() implies only_ours(
        #[trigger] new[i].1[j],
    ) by {
        let state = if i == 0 {
            "done"@
        } else if i == 1 {
            "working"@
        } else {
            "blocked"@
        };
        assert(new[i].1[j] == (EntryView { json: rest, hooks: Some(seq![report_hook(state)]) }));
        lemma_report_line_is_ours(state);
        assert(ours(report_hook(state)));
    }
}

/// The hooks of the Gemini client.
pub fn gemini_hooks() -> (r: Vec<(String, Vec<Entry>)>)
    ensures
        new_view(r@) == lifecycle(
            "AfterAgent"@,
            "BeforeAgent"@,
            json_object(seq![("matcher"@, json_text("*"@))]),
        ),
        all_ours(new_view(r@)),
        sound_new(new_view(r@)),
{
    let members: Vec<(String, String)> = vec![("matcher".to_owned(), write_text("*"))];
    let ghost pairs = seq![("matcher"@, json_text("*"@))];
    assert(plugins::pair_texts(members@) =~= pairs);
    let rest = write_object(&members);
    assert(json_value(rest@) == Some(JsonView::Object(pairs)));
    assert(proper(pairs[0].1, 123));
    lifecycle_hooks("AfterAgent", "BeforeAgent", rest.as_str())
}

/// The hooks of a client that says when a prompt is sent and when it stops.
pub fn prompt_hooks() -> (r: Vec<(String, Vec<Entry>)>)
    ensures
        new_view(r@) == lifecycle("Stop"@, "UserPromptSubmit"@, json_object(Seq::empty())),
        all_ours(new_view(r@)),
        sound_new(new_view(r@)),
{
    let members: Vec<(String, String)> = Vec::new();
    assert(plugins::pair_texts(members@) =~= Seq::empty());
    lifecycle_hooks("Stop", "UserPromptSubmit", write_object(&members).as_str())
}

// ------------------------------------------------------------------------------- notify

/// Whether the `toml_edit` crate reads a text as a document.
pub uninterp spec fn toml_reads(source: Seq<char>) -> bool;

/// Whether a document has a key, and the text at an index of the list under it.
pub uninterp spec fn toml_item(source: Seq<char>, key: Seq<char>, index: nat) -> (
    bool,
    Option<Seq<char>>,
);

/// The document with a list of texts under a key, everything else as it was.
pub uninterp spec fn toml_with_list(
    source: Seq<char>,
    key: Seq<char>,
    words: Seq<Seq<char>>,
) -> Seq<char>;

/// Calls `str::parse::<toml_edit::DocumentMut>` and looks a key up in the document.
/// Whether it parses is named by `toml_reads`, what is found by `toml_item`.
#[verifier::external_body]
fn read_item(source: &str, key: &str, index: usize) -> (r: Option<(bool, Option<String>)>)
    ensures
        r is Some == toml_reads(source@),
        r matches Some(found) ==> (found.0, text::option_text(found.1)) == toml_item(
            source@,
            key@,
            index as nat,
        ),
{
    let document = source.parse::<toml_edit::DocumentMut>().ok()?;
    let text = document.get(key).and_then(toml_edit::Item::as_array).and_then(
        |list| list.get(index),
    ).and_then(toml_edit::Value::as_str).map(str::to_owned);
    Some((document.contains_key(key), text))
}

/// The text at an index of a list, where it has one.
pub open spec fn word_at(words: Seq<Seq<char>>, index: nat) -> Option<Seq<char>> {
    if index < words.len() {
        Some(words[index as int])
    } else {
        None
    }
}

/// Under every other key a document has what another has there.
pub open spec fn others_stay(source: Seq<char>, key: Seq<char>, out: Seq<char>) -> bool {
    forall|other: Seq<char>, i: nat|
        other != key && i <= usize::MAX ==> #[trigger] toml_item(out, other, i) == toml_item(
            source,
            other,
            i,
        )
}

/// Parses a document with `toml_edit`, sets a list of texts under a key, and writes
/// the document. Nothing where it does not parse; the text is named by
/// `toml_with_list`. An empty text parses, and what is written under a key of plain
/// characters parses again, has the list that was set, and under every other key what was
/// there. The writer counts quotes that
/// follow each other in a byte, so the new texts are shorter than that.
#[verifier::external_body]
fn write_list(source: &str, key: &str, words: &Vec<String>) -> (r: Option<String>)
    requires
        key@.len() < 256,
        forall|i: int| 0 <= i < words@.len() ==> (#[trigger] words@[i])@.len() < 256,
    ensures
        r is Some == toml_reads(source@),
        source@.len() == 0 ==> r is Some,
        r matches Some(out) ==> out@ == toml_with_list(source@, key@, text::texts(words@)),
        r matches Some(out) ==> text::bare_key(key@) ==> toml_reads(out@) && forall|i: nat|
            i <= usize::MAX ==> #[trigger] toml_item(out@, key@, i) == (
                true,
                word_at(text::texts(words@), i),
            ),
        r matches Some(out) ==> text::bare_key(key@) ==> others_stay(source@, key@, out@),
{
    let mut document = source.parse::<toml_edit::DocumentMut>().ok()?;
    let list = words.iter().cloned().collect::<toml_edit::Array>();
    document[key] = toml_edit::value(list);
    Some(document.to_string())
}

/// What a Codex configuration says of its `notify`: whether there is one, and the
/// command in it.
pub open spec fn notify_of(source: Seq<char>) -> (bool, Option<Seq<char>>) {
    toml_item(source, "notify"@, 2)
}

/// A Codex configuration with a `notify`.
pub open spec fn with_notify(source: Seq<char>, words: Seq<Seq<char>>) -> Seq<char> {
    toml_with_list(source, "notify"@, words)
}

/// The program that Codex runs with a payload: a shell that ignores it and reports.
pub open spec fn notify_words() -> Seq<Seq<char>> {
    seq!["sh"@, "-c"@, report_line("done"@)]
}

fn codex_notify() -> (r: Vec<String>)
    ensures
        text::texts(r@) == notify_words(),
        forall|i: int| 0 <= i < r@.len() ==> (#[trigger] r@[i])@.len() < 256,
{
    let words: Vec<String> = vec!["sh".to_owned(), "-c".to_owned(), report_command("done")];
    assert(text::texts(words@) =~= notify_words());
    proof {
        reveal_strlit("sh");
        reveal_strlit("-c");
        reveal_strlit("done");
        reveal_strlit("kodade-cli agent report $KODADE_PANE ");
        reveal_strlit(" -s \"$KODADE_SESSION\"");
    }
    words
}

/// A `notify` that is there is replaced only when that is asked for, or when it is
/// one of this client.
pub open spec fn may_replace(present: bool, third: Option<Seq<char>>, force: bool) -> bool {
    !present || force || (third matches Some(command) && REPORT_PREFIX@.is_prefix_of(command))
}

/// Decides whether a `notify` is replaced, from what the document holds.
pub fn replaces(present: bool, third: &Option<String>, force: bool) -> (r: bool)
    ensures
        r == may_replace(present, text::option_text(*third), force),
{
    let own = match third {
        Some(command) => text::starts_with(command.as_str(), REPORT_PREFIX),
        None => false,
    };
    !present || force || own
}

/// Sets the `notify` of a Codex configuration. Nothing where it has one of its own.
/// What is set once may be set again without being forced, and other settings stay.
pub fn merge_codex_notify(source: &str, force: bool) -> (r: Result<Option<String>, String>)
    ensures
        !toml_reads(source@) ==> text::fault(r) == Some("parse Codex config.toml"@),
        toml_reads(source@) ==> (r matches Ok(merged) && text::option_text(merged) == (
        if may_replace(notify_of(source@).0, notify_of(source@).1, force) {
            Some(with_notify(source@, notify_words()))
        } else {
            None
        })),
        r matches Ok(Some(out)) ==> toml_reads(out@) && may_replace(
            notify_of(out@).0,
            notify_of(out@).1,
            false,
        ) && others_stay(source@, "notify"@, out@),
{
    let (present, third) = match read_item(source, "notify", 2) {
        Some(found) => found,
        None => return Err("parse Codex config.toml".to_owned()),
    };
    if !replaces(present, &third, force) {
        return Ok(None);
    }
    proof {
        lemma_report_line_is_ours("done"@);
        reveal_strlit("notify");
    }
    match write_list(source, "notify", &codex_notify()) {
        Some(out) => Ok(Some(out)),
        None => Err("parse Codex config.toml".to_owned()),
    }
}

/// The setting as it would stand in an empty configuration.
pub fn notify_preview() -> (r: String)
    ensures
        r@ == text::trim_end(with_notify(Seq::empty(), notify_words())),
{
    let empty = String::new();
    assert(empty@ =~= Seq::<char>::empty());
    proof {
        reveal_strlit("notify");
    }
    match write_list(empty.as_str(), "notify", &codex_notify()) {
        Some(out) => text::trimmed_end(out.as_str()),
        None => empty,
    }
}

} // verus!
